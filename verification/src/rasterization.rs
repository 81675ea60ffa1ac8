//! The scanline rasterizer: the renderer with its buffers, projection onto
//! the canvas, illumination in camera space, and the drawing of models and
//! scenes. Lines, filled triangles and shaded triangles are drawn in the
//! modules [`lines`](crate::lines), [`filled`](crate::filled) and
//! [`shaded`](crate::shaded).
use crate::canvas::{
    depth_after, depth_passes, put_pixel_spec, put_pixels, update_depth_buf_if_closer, Rectangle,
};
use crate::color::Color;
use crate::fixed::Fixed;
use crate::illumination::{contribution, contribution_spec};
use crate::interpolate::{
    edge_interpolate, edge_interpolate_spec, interpolate, interpolate_spec, sample_count, Varying,
};
use crate::math::{Vector2, Vector3};
use crate::matrix::Matrix4;
use crate::scene::{Camera, Instance, InstanceView, Light, Triangle};
use vstd::prelude::*;

verus! {

/// The exponent of the rasterizer's specular highlights.
pub const SHININESS: i32 = 50;

/// What drawing changes: the pixel bytes and the depth buffer.
pub ghost struct Surface {
    pub data: Seq<u8>,
    pub depth: Seq<Fixed>,
}

impl Surface {
    /// Whether the buffers have room for exactly the pixels of a canvas of
    /// the given size.
    pub open spec fn fits(self, size: Rectangle) -> bool {
        &&& size.w > 0
        &&& size.h > 0
        &&& self.depth.len() == size.w * size.h
        &&& self.data.len() == 4 * (size.w * size.h)
    }
}

/// What drawing reads and leaves alone: the camera, the lights and the sizes
/// of canvas and viewport.
pub ghost struct Setup {
    pub camera: Camera,
    pub lights: Seq<Light>,
    pub canvas_size: Rectangle,
    pub viewport_size: Rectangle,
}

/// A rasterizer over one canvas: the camera and lights of the scene, the
/// pixel and depth buffers, and the sizes of canvas and viewport.
pub struct Renderer {
    pub camera: Camera,
    pub lights: Vec<Light>,
    pub data: Vec<u8>,
    pub depth_buf: Vec<Fixed>,
    pub canvas_size: Rectangle,
    pub viewport_size: Rectangle,
}

/// The order of three heights: the positions of the lowest, the middle and
/// the highest among `ya`, `yb` and `yc`.
pub open spec fn sort_order_spec(ya: Fixed, yb: Fixed, yc: Fixed) -> (int, int, int) {
    let s1: (int, int, int) = if yb.raw < ya.raw {
        (1, 0, 2)
    } else {
        (0, 1, 2)
    };
    let s2 = if pick(ya, yb, yc, s1.2).raw < pick(ya, yb, yc, s1.0).raw {
        (s1.2, s1.1, s1.0)
    } else {
        s1
    };
    if pick(ya, yb, yc, s2.2).raw < pick(ya, yb, yc, s2.1).raw {
        (s2.0, s2.2, s2.1)
    } else {
        s2
    }
}

/// The `i`-th of three values.
pub open spec fn pick<T>(a: T, b: T, c: T, i: int) -> T {
    if i == 0 {
        a
    } else if i == 1 {
        b
    } else {
        c
    }
}

/// The unit normal of the triangle `a`, `b`, `c`.
pub open spec fn triangle_normal_spec(a: Vector3, b: Vector3, c: Vector3) -> Vector3 {
    b.minus_spec(a).cross_spec(c.minus_spec(a)).normalize_spec()
}

/// Whether the triangle faces away from a viewer at the origin: the vector
/// from its first vertex to the viewer has no positive product with the normal.
pub open spec fn is_back_facing(a: Vector3, b: Vector3, c: Vector3) -> bool {
    a.negated_spec().dot_spec(triangle_normal_spec(a, b, c)).raw <= 0
}

/// A light moved from world space into camera space.
pub open spec fn camera_light_spec(camera: Camera, light: Light) -> Light {
    match light {
        Light::Ambient { intensity } => light,
        Light::Point { intensity, position } => Light::Point {
            intensity,
            position: camera.matrix_spec().transform_point_spec(position),
        },
        Light::Directional { intensity, direction } => Light::Directional {
            intensity,
            direction: camera.orientation_spec().transpose_spec().transform_point_spec(direction),
        },
    }
}

/// The attributes of a vertex `v` in camera space whose normal is `n` and
/// whose texture coordinate is `uv`.
pub open spec fn vertex_varying_spec(normals: Matrix4, v: Vector3, n: Vector3, uv: Vector2) -> Varying {
    Varying {
        inv_z: Fixed::one_spec().div_spec(v.z),
        normal: normals.transform_point_spec(n),
        uv_z: Vector2 { x: uv.x.div_spec(v.z), y: uv.y.div_spec(v.z) },
    }
}

/// The unit normal of the triangle `a`, `b`, `c`.
pub fn triangle_normal(a: &Vector3, b: &Vector3, c: &Vector3) -> (n: Vector3)
    ensures
        n == triangle_normal_spec(*a, *b, *c),
{
    b.minus(a).cross(&c.minus(a)).normalize()
}

/// A light moved from world space into camera space.
pub fn camera_light(camera: &Camera, light: &Light) -> (r: Light)
    ensures
        r == camera_light_spec(*camera, *light),
{
    match light {
        Light::Ambient { intensity } => *light,
        Light::Point { intensity, position } => Light::Point {
            intensity: *intensity,
            position: camera.get_matrix().transform_point(position),
        },
        Light::Directional { intensity, direction } => Light::Directional {
            intensity: *intensity,
            direction: camera.get_orientation().transpose().transform_point(direction),
        },
    }
}

/// The attributes of a vertex in camera space.
pub fn vertex_varying(normals: &Matrix4, v: &Vector3, n: &Vector3, uv: &Vector2) -> (a: Varying)
    ensures
        a == vertex_varying_spec(*normals, *v, *n, *uv),
{
    Varying {
        inv_z: Fixed::one().div(v.z),
        normal: normals.transform_point(n),
        uv_z: Vector2 { x: uv.x.div(v.z), y: uv.y.div(v.z) },
    }
}

impl Renderer {
    /// The buffers that drawing changes.
    pub open spec fn surface(self) -> Surface {
        Surface { data: self.data@, depth: self.depth_buf@ }
    }

    /// The lengths of the pixel buffer and of the depth buffer, which
    /// drawing never changes.
    pub open spec fn lengths(self) -> (nat, nat) {
        (self.data@.len(), self.depth_buf@.len())
    }

    /// What drawing reads.
    pub open spec fn setup(self) -> Setup {
        Setup {
            camera: self.camera,
            lights: self.lights@,
            canvas_size: self.canvas_size,
            viewport_size: self.viewport_size,
        }
    }
}

impl Setup {
    /// The canvas point of a point of the viewport: each coordinate times
    /// the canvas size over the viewport size.
    pub open spec fn viewport_to_canvas_spec(self, x: Fixed, y: Fixed) -> Vector2 {
        Vector2 {
            x: x.mul_spec(Fixed::from_int_spec(self.canvas_size.w as int)).div_spec(
                Fixed::from_int_spec(self.viewport_size.w as int),
            ),
            y: y.mul_spec(Fixed::from_int_spec(self.canvas_size.h as int)).div_spec(
                Fixed::from_int_spec(self.viewport_size.h as int),
            ),
        }
    }

    /// The viewport point of a point of the canvas: each coordinate over
    /// the canvas size.
    pub open spec fn canvas_to_viewport_spec(self, x: Fixed, y: Fixed) -> Vector2 {
        Vector2 {
            x: x.div_spec(Fixed::from_int_spec(self.canvas_size.w as int)),
            y: y.div_spec(Fixed::from_int_spec(self.canvas_size.h as int)),
        }
    }

    /// The canvas point of the camera-space vertex `v`.
    pub open spec fn project_vertex_spec(self, v: Vector3) -> Vector2 {
        self.viewport_to_canvas_spec(v.x.div_spec(v.z), v.y.div_spec(v.z))
    }

    /// The camera-space point behind the pixel `(x, y)` at reciprocal depth `z`.
    pub open spec fn un_project_vertex_spec(self, x: int, y: int, z: Fixed) -> Vector3 {
        let oz = Fixed::one_spec().div_spec(z);
        let p = self.canvas_to_viewport_spec(
            Fixed::from_int_spec(x).mul_spec(oz),
            Fixed::from_int_spec(y).mul_spec(oz),
        );
        Vector3 { x: p.x, y: p.y, z: oz }
    }

    /// The sum of what the first `k` lights, moved into camera space, add at
    /// `vertex`.
    pub open spec fn illumination_upto(self, vertex: Vector3, normal: Vector3, k: nat) -> Fixed
        decreases k,
    {
        if k == 0 {
            Fixed::zero_spec()
        } else {
            self.illumination_upto(vertex, normal, (k - 1) as nat).add_spec(
                contribution_spec(
                    camera_light_spec(self.camera, self.lights[k - 1]),
                    vertex,
                    normal,
                    self.camera.position.minus_spec(vertex),
                    SHININESS,
                ),
            )
        }
    }

    /// The illumination of the camera-space point `vertex` with the given
    /// normal under the renderer's lights.
    pub open spec fn compute_illumination_spec(self, vertex: Vector3, normal: Vector3) -> Fixed {
        self.illumination_upto(vertex, normal, self.lights.len())
    }
}

impl Renderer {
    /// A renderer over a cleared canvas of the given size, if the size is
    /// positive and its buffers fit the machine.
    pub fn new(camera: Camera, lights: Vec<Light>, canvas_size: Rectangle, viewport_size: Rectangle) -> (r:
        Option<Renderer>)
        ensures
            r.is_some() == (canvas_size.w > 0 && canvas_size.h > 0 && 4 * (canvas_size.w
                * canvas_size.h) <= usize::MAX),
            r.is_some() ==> {
                let s = r.unwrap();
                &&& s.setup() == (Setup { camera, lights: lights@, canvas_size, viewport_size })
                &&& s.surface().fits(canvas_size)
                &&& s.data@ == Seq::new((4 * (canvas_size.w * canvas_size.h)) as nat, |i: int| 0u8)
                &&& s.depth_buf@ == Seq::new(
                    (canvas_size.w * canvas_size.h) as nat,
                    |i: int| Fixed::zero_spec(),
                )
            },
    {
        match crate::canvas::new_buffers(&canvas_size) {
            None => None,
            Some((data, depth_buf)) => Some(
                Renderer { camera, lights, data, depth_buf, canvas_size, viewport_size },
            ),
        }
    }

    /// The canvas point of a point of the viewport.
    pub fn viewport_to_canvas(&self, x: Fixed, y: Fixed) -> (p: Vector2)
        ensures
            p == self.setup().viewport_to_canvas_spec(x, y),
    {
        Vector2 {
            x: x.mul(Fixed::from_int(self.canvas_size.w)).div(Fixed::from_int(self.viewport_size.w)),
            y: y.mul(Fixed::from_int(self.canvas_size.h)).div(Fixed::from_int(self.viewport_size.h)),
        }
    }

    /// The viewport point of a point of the canvas.
    pub fn canvas_to_viewport(&self, x: Fixed, y: Fixed) -> (p: Vector2)
        ensures
            p == self.setup().canvas_to_viewport_spec(x, y),
    {
        Vector2 {
            x: x.div(Fixed::from_int(self.canvas_size.w)),
            y: y.div(Fixed::from_int(self.canvas_size.h)),
        }
    }

    /// The canvas point of the camera-space vertex `v`: its `x` and `y`
    /// divided by its depth, scaled to the canvas. A vertex of depth zero
    /// lands at the far edge of the number range.
    pub fn project_vertex(&self, v: &Vector3) -> (p: Vector2)
        ensures
            p == self.setup().project_vertex_spec(*v),
    {
        self.viewport_to_canvas(v.x.div(v.z), v.y.div(v.z))
    }

    /// The camera-space point behind the pixel `(x, y)` at reciprocal depth `z`.
    pub fn un_project_vertex(&self, x: i32, y: i32, z: Fixed) -> (v: Vector3)
        ensures
            v == self.setup().un_project_vertex_spec(x as int, y as int, z),
    {
        let oz = Fixed::one().div(z);
        let ux = Fixed::from_int(x).mul(oz);
        let uy = Fixed::from_int(y).mul(oz);
        let p2d = self.canvas_to_viewport(ux, uy);
        Vector3 { x: p2d.x, y: p2d.y, z: oz }
    }

    /// Exchanges two points.
    pub fn swap(&self, p0: &mut Vector2, p1: &mut Vector2)
        ensures
            *final(p0) == *old(p1),
            *final(p1) == *old(p0),
    {
        let x = p0.x;
        let y = p0.y;
        p0.x = p1.x;
        p0.y = p1.y;
        p1.x = x;
        p1.y = y;
    }

    /// The positions within the triangle of its lowest, middle and highest
    /// projected vertex.
    pub fn sort_vertex_indexes(&self, triangle: &Triangle, projected: &Vec<Vector2>) -> (sort: [usize; 3])
        requires
            triangle.indexes_below(projected@.len() as int),
        ensures
            (sort[0] as int, sort[1] as int, sort[2] as int) == sort_order_spec(
                projected@[triangle.indexes[0] as int].y,
                projected@[triangle.indexes[1] as int].y,
                projected@[triangle.indexes[2] as int].y,
            ),
            sort[0] < 3 && sort[1] < 3 && sort[2] < 3,
            sort[0] != sort[1] && sort[0] != sort[2] && sort[1] != sort[2],
            projected@[triangle.indexes[sort[0] as int] as int].y.raw
                <= projected@[triangle.indexes[sort[1] as int] as int].y.raw
                <= projected@[triangle.indexes[sort[2] as int] as int].y.raw,
    {
        let mut sort: [usize; 3] = [0, 1, 2];
        let indexes = &triangle.indexes;
        if projected[indexes[sort[1]]].y.raw < projected[indexes[sort[0]]].y.raw {
            let swap = sort[0];
            sort[0] = sort[1];
            sort[1] = swap;
        }
        if projected[indexes[sort[2]]].y.raw < projected[indexes[sort[0]]].y.raw {
            let swap = sort[0];
            sort[0] = sort[2];
            sort[2] = swap;
        }
        if projected[indexes[sort[2]]].y.raw < projected[indexes[sort[1]]].y.raw {
            let swap = sort[1];
            sort[1] = sort[2];
            sort[2] = swap;
        }
        sort
    }

    /// The interpolation tables of one attribute along the edges of a
    /// triangle whose vertices are ordered by `y`.
    pub fn edge_interpolate(
        &self,
        y0: Fixed,
        v0: Fixed,
        y1: Fixed,
        v1: Fixed,
        y2: Fixed,
        v2: Fixed,
    ) -> (r: (Vec<Fixed>, Vec<Fixed>))
        ensures
            (r.0@, r.1@) == edge_interpolate_spec(y0, v0, y1, v1, y2, v2),
            y0.raw <= y1.raw <= y2.raw ==> r.0@.len() == r.1@.len() == sample_count(y0, y2),
    {
        edge_interpolate(y0, v0, y1, v1, y2, v2)
    }

    /// One sample of the line through `(i0, d0)` and `(i1, d1)` for each
    /// whole step from `i0` to `i1`.
    pub fn interpolate(&self, i0: Fixed, d0: Fixed, i1: Fixed, d1: Fixed) -> (values: Vec<Fixed>)
        ensures
            values@ == interpolate_spec(i0, d0, i1, d1),
            values@.len() == sample_count(i0, i1),
            values@[0] == d0,
    {
        interpolate(i0, d0, i1, d1)
    }

    /// The illumination of the camera-space point `vertex` with the given
    /// normal: every light is moved into camera space and adds its ambient,
    /// diffuse and specular part.
    pub fn compute_illumination(&self, vertex: &Vector3, normal: &Vector3) -> (r: Fixed)
        ensures
            r == self.setup().compute_illumination_spec(*vertex, *normal),
            crate::illumination::lights_nonnegative(self.lights@) ==> r.raw >= 0,
    {
        proof {
            if crate::illumination::lights_nonnegative(self.lights@) {
                lemma_illumination_nonnegative(self.setup(), *vertex, *normal, self.lights@.len());
            }
        }
        let view = self.camera.position.minus(vertex);
        let mut illumination = Fixed::zero();
        let mut k: usize = 0;
        while k < self.lights.len()
            invariant
                k <= self.lights@.len(),
                view == self.camera.position.minus_spec(*vertex),
                illumination == self.setup().illumination_upto(*vertex, *normal, k as nat),
            decreases self.lights@.len() - k,
        {
            let light = camera_light(&self.camera, &self.lights[k]);
            illumination = illumination.add(contribution(&light, vertex, normal, &view, SHININESS));
            k = k + 1;
        }
        illumination
    }

    /// Offers a fragment to the depth buffer; see
    /// [`update_depth_buf_if_closer`](crate::canvas::update_depth_buf_if_closer).
    pub fn update_depth_buf_if_closer(&mut self, cx: i32, cy: i32, z: Fixed) -> (closer: bool)
        ensures
            final(self).setup() == old(self).setup(),
            final(self).lengths() == old(self).lengths(),
            final(self).data == old(self).data,
            closer == depth_passes(old(self).depth_buf@, old(self).canvas_size, cx as int, cy as int, z),
            final(self).depth_buf@ == depth_after(
                old(self).depth_buf@,
                old(self).canvas_size,
                cx as int,
                cy as int,
                z,
            ),
    {
        update_depth_buf_if_closer(&mut self.depth_buf, &self.canvas_size, cx, cy, z)
    }

    /// Sets one pixel; see [`put_pixels`](crate::canvas::put_pixels).
    pub fn put_pixels(&mut self, cx: i32, cy: i32, color: Color)
        ensures
            final(self).setup() == old(self).setup(),
            final(self).lengths() == old(self).lengths(),
            final(self).depth_buf == old(self).depth_buf,
            final(self).data@ == put_pixel_spec(
                old(self).data@,
                old(self).canvas_size,
                cx as int,
                cy as int,
                color,
            ),
    {
        put_pixels(&mut self.data, &self.canvas_size, cx, cy, color)
    }
}

impl Setup {
    /// The canvas points of all vertices.
    pub open spec fn project_all_spec(self, vertices: Seq<Vector3>) -> Seq<Vector2> {
        Seq::new(vertices.len(), |i: int| self.project_vertex_spec(vertices[i]))
    }

    /// The surface after the first `k` triangles of `instance` are filled.
    pub open spec fn render_triangles_upto(
        self,
        s: Surface,
        instance: InstanceView,
        projected: Seq<Vector2>,
        k: nat,
    ) -> Surface
        decreases k,
    {
        if k == 0 {
            s
        } else {
            self.draw_filled_triangle_spec(
                self.render_triangles_upto(s, instance, projected, (k - 1) as nat),
                instance,
                instance.model.triangles[k - 1],
                projected,
            )
        }
    }

    /// The surface after an instance in camera space is drawn: its vertices
    /// are projected, and its triangles filled in their order.
    pub open spec fn render_model_spec(self, s: Surface, instance: InstanceView) -> Surface {
        self.render_triangles_upto(
            s,
            instance,
            self.project_all_spec(instance.model.vertices),
            instance.model.triangles.len(),
        )
    }

    /// An instance of the world moved into camera space and clipped to the
    /// view frustum; nothing where it is out of view.
    pub open spec fn clipped_spec(self, instance: InstanceView) -> Option<InstanceView> {
        crate::clip::transform_and_clip_spec(
            self.camera,
            instance,
            self.camera.matrix_spec().mul_spec(instance.transform_spec()),
        )
    }

    /// The surface after one instance of the world is drawn: it is moved
    /// into camera space and clipped, and what is left of it is drawn.
    #[verifier::opaque]
    pub open spec fn render_instance_spec(self, s: Surface, instance: InstanceView) -> Surface {
        match self.clipped_spec(instance) {
            Some(clipped) => self.render_model_spec(s, clipped),
            None => s,
        }
    }

    /// The surface after the first `k` of `instances` are drawn.
    pub open spec fn render_scene_upto(self, s: Surface, instances: Seq<Instance>, k: nat) -> Surface
        decreases k,
    {
        if k == 0 {
            s
        } else {
            self.render_instance_spec(
                self.render_scene_upto(s, instances, (k - 1) as nat),
                instances[k - 1]@,
            )
        }
    }

}

impl Renderer {
    /// Draws one triangle of an instance in camera space: it is filled.
    pub fn render_triangle(&mut self, instance: &Instance, triangle: &Triangle, projected: &Vec<Vector2>)
        requires
            triangle.indexes_below(instance.model.vertices@.len() as int),
            triangle.indexes_below(projected@.len() as int),
        ensures
            final(self).setup() == old(self).setup(),
            final(self).lengths() == old(self).lengths(),
            final(self).surface() == old(self).setup().draw_filled_triangle_spec(
                old(self).surface(),
                instance@,
                *triangle,
                projected@,
            ),
    {
        self.draw_filled_triangle(instance, triangle, projected);
    }

    /// Draws an instance in camera space: projects its vertices onto the
    /// canvas and fills its triangles in their order.
    pub fn render_model(&mut self, instance: &Instance)
        requires
            instance.model.wf(),
        ensures
            final(self).setup() == old(self).setup(),
            final(self).lengths() == old(self).lengths(),
            final(self).surface() == old(self).setup().render_model_spec(old(self).surface(), instance@),
    {
        let mut projected: Vec<Vector2> = Vec::new();
        let mut i: usize = 0;
        while i < instance.model.vertices.len()
            invariant
                i <= instance.model.vertices@.len(),
                projected@.len() == i,
                forall|j: int|
                    0 <= j < i ==> projected@[j] == self.setup().project_vertex_spec(
                        instance.model.vertices@[j],
                    ),
            decreases instance.model.vertices@.len() - i,
        {
            projected.push(self.project_vertex(&instance.model.vertices[i]));
            i = i + 1;
        }
        assert(projected@ =~= self.setup().project_all_spec(instance.model.vertices@));
        let mut k: usize = 0;
        while k < instance.model.triangles.len()
            invariant
                k <= instance.model.triangles@.len(),
                instance.model.wf(),
                projected@.len() == instance.model.vertices@.len(),
                self.setup() == old(self).setup(),
                self.lengths() == old(self).lengths(),
                self.surface() == old(self).setup().render_triangles_upto(
                    old(self).surface(),
                    instance@,
                    projected@,
                    k as nat,
                ),
            decreases instance.model.triangles@.len() - k,
        {
            self.render_triangle(instance, &instance.model.triangles[k], &projected);
            k = k + 1;
        }
    }

    /// Draws one instance of the world: moves it into camera space, clips
    /// it to the view frustum and, unless nothing is left of it, draws it.
    pub fn render_instance(&mut self, instance: Instance)
        requires
            instance.model.wf(),
        ensures
            final(self).setup() == old(self).setup(),
            final(self).lengths() == old(self).lengths(),
            final(self).surface() == old(self).setup().render_instance_spec(
                old(self).surface(),
                instance@,
            ),
    {
        proof {
            reveal(Setup::render_instance_spec);
        }
        let transform = self.camera.get_matrix().mul(&instance.transform());
        if let Some(clipped_instance) = self.transform_and_clip(instance, transform) {
            self.render_model(&clipped_instance);
        }
    }

    /// Draws the instances of a scene in their order.
    pub fn render_scene(&mut self, instances: Vec<Instance>)
        requires
            forall|i: int| 0 <= i < instances@.len() ==> (#[trigger] instances@[i]).model.wf(),
        ensures
            final(self).setup() == old(self).setup(),
            final(self).lengths() == old(self).lengths(),
            final(self).surface() == old(self).setup().render_scene_upto(
                old(self).surface(),
                instances@,
                instances@.len(),
            ),
    {
        for instance in it: instances
            invariant
                it.seq() == instances@,
                forall|i: int| 0 <= i < instances@.len() ==> (#[trigger] instances@[i]).model.wf(),
                self.setup() == old(self).setup(),
                self.lengths() == old(self).lengths(),
                self.surface() == old(self).setup().render_scene_upto(
                    old(self).surface(),
                    instances@,
                    it.index() as nat,
                ),
        {
            self.render_instance(instance);
        }
    }
}

/// Under lights of intensities that are not negative, no point is lit
/// with a negative intensity.
pub proof fn lemma_illumination_nonnegative(setup: Setup, vertex: Vector3, normal: Vector3, k: nat)
    requires
        crate::illumination::lights_nonnegative(setup.lights),
        k <= setup.lights.len(),
    ensures
        setup.illumination_upto(vertex, normal, k).raw >= 0,
    decreases k,
{
    if k > 0 {
        lemma_illumination_nonnegative(setup, vertex, normal, (k - 1) as nat);
        crate::illumination::lemma_contribution_nonnegative(
            camera_light_spec(setup.camera, setup.lights[k - 1]),
            vertex,
            normal,
            setup.camera.position.minus_spec(vertex),
            SHININESS,
        );
    }
}

/// The order of three heights names each of them once, lowest first.
pub proof fn lemma_sort_order(ya: Fixed, yb: Fixed, yc: Fixed)
    ensures
        ({
            let (i0, i1, i2) = sort_order_spec(ya, yb, yc);
            &&& 0 <= i0 < 3 && 0 <= i1 < 3 && 0 <= i2 < 3
            &&& i0 != i1 && i0 != i2 && i1 != i2
            &&& pick(ya, yb, yc, i0).raw <= pick(ya, yb, yc, i1).raw <= pick(ya, yb, yc, i2).raw
        }),
{
}

} // verus!
