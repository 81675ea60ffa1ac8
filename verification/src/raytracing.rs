//! The recursive ray tracer: rays against spheres, the closest hit, shadows
//! and reflections.
use crate::canvas::{put_pixel_spec, put_pixels, Rectangle};
use crate::color::Color;
use crate::fixed::{div_toward_zero, Fixed};
use crate::illumination::{light_term, light_term_spec, reflect, reflect_spec};
use crate::math::Vector3;
use crate::scene::Light;
use vstd::prelude::*;

verus! {

/// The raw value of the parameter at which a shadow ray starts: about
/// 0.001, so that a surface does not shadow itself.
pub const SHADOW_START_RAW: i64 = 65;

/// The raw value of the parameter at which a reflected ray starts: about 0.1.
pub const REFLECTION_START_RAW: i64 = 6553;

/// A half-line: the points `origin + t * direction`.
#[derive(Clone, Copy, Debug, PartialEq, Eq, Structural)]
pub struct Ray {
    pub origin: Vector3,
    pub direction: Vector3,
}

/// An open interval of ray parameters.
#[derive(Clone, Copy, Debug, PartialEq, Eq, Structural)]
pub struct Range {
    pub min: Fixed,
    pub max: Fixed,
}

/// A sphere with the look of its surface. A specular exponent of -1 means
/// a matt surface; a reflectivity of zero or less means no mirror image.
#[derive(Clone, Copy, Debug, PartialEq, Eq, Structural)]
pub struct Sphere {
    pub center: Vector3,
    pub radius: Fixed,
    pub color: Color,
    pub specular: i32,
    pub reflective: Fixed,
}

/// A scene of spheres and lights to trace rays through.
pub struct RayTracer {
    pub spheres: Vec<Sphere>,
    pub lights: Vec<Light>,
}

/// The scene of a ray tracer as sequences.
pub ghost struct TracerView {
    pub spheres: Seq<Sphere>,
    pub lights: Seq<Light>,
}

impl View for RayTracer {
    type V = TracerView;

    open spec fn view(&self) -> TracerView {
        TracerView { spheres: self.spheres@, lights: self.lights@ }
    }
}

impl Ray {
    /// The point of the ray at the parameter `t`.
    pub open spec fn point_spec(self, t: Fixed) -> Vector3 {
        self.origin.plus_spec(self.direction.scaled_spec(t))
    }

    /// The point of the ray at the parameter `t`.
    pub fn point(&self, t: Fixed) -> (p: Vector3)
        ensures
            p == self.point_spec(t),
    {
        self.origin.plus(&self.direction.scaled(t))
    }
}

impl Range {
    /// Whether `t` lies strictly between the two ends.
    pub open spec fn isin_spec(self, t: Fixed) -> bool {
        self.min.raw < t.raw && t.raw < self.max.raw
    }

    /// Whether `t` lies strictly between the two ends.
    pub fn isin(&self, t: Fixed) -> (r: bool)
        ensures
            r == self.isin_spec(t),
    {
        self.min.raw < t.raw && t.raw < self.max.raw
    }
}

/// The coefficient `a` of the quadratic for the ray parameter: the
/// direction's product with itself.
pub open spec fn quadratic_a_spec(ray: Ray) -> Fixed {
    ray.direction.dot_spec(ray.direction)
}

/// The coefficient `b`: twice the product of the direction with the vector
/// from the sphere's centre to the ray's origin.
pub open spec fn quadratic_b_spec(ray: Ray, sphere: Sphere) -> Fixed {
    Fixed::from_int_spec(2).mul_spec(ray.origin.minus_spec(sphere.center).dot_spec(ray.direction))
}

/// The coefficient `c`: the squared distance of the origin from the centre,
/// less the squared radius.
pub open spec fn quadratic_c_spec(ray: Ray, sphere: Sphere) -> Fixed {
    let oc = ray.origin.minus_spec(sphere.center);
    oc.dot_spec(oc).sub_spec(sphere.radius.mul_spec(sphere.radius))
}

/// The discriminant `b * b - 4 * a * c`.
pub open spec fn discriminant_spec(ray: Ray, sphere: Sphere) -> Fixed {
    let a = quadratic_a_spec(ray);
    let b = quadratic_b_spec(ray, sphere);
    let c = quadratic_c_spec(ray, sphere);
    b.mul_spec(b).sub_spec(Fixed::from_int_spec(4).mul_spec(a).mul_spec(c))
}

/// The two parameters at which the ray meets the sphere, the smaller first;
/// none where the discriminant is negative.
pub open spec fn intersect_ray_sphere_spec(ray: Ray, sphere: Sphere) -> Option<(Fixed, Fixed)> {
    let disc = discriminant_spec(ray, sphere);
    if disc.raw < 0 {
        None
    } else {
        let a = quadratic_a_spec(ray);
        let b = quadratic_b_spec(ray, sphere);
        let root = disc.sqrt_spec();
        let twice_a = Fixed::from_int_spec(2).mul_spec(a);
        Some(
            (
                b.neg_spec().sub_spec(root).div_spec(twice_a),
                b.neg_spec().add_spec(root).div_spec(twice_a),
            ),
        )
    }
}

/// The closest hit after one more candidate parameter `t` on the sphere
/// `index` was considered: it takes the place of `best` if it lies in
/// `range` and before the hit so far.
pub open spec fn closer_spec(best: (Fixed, Option<int>), range: Range, t: Fixed, index: int) -> (
    Fixed,
    Option<int>,
) {
    if t.raw < best.0.raw && range.isin_spec(t) {
        (t, Some(index))
    } else {
        best
    }
}

/// The closest hit among the first `k` spheres: the parameter, and the
/// index of the sphere if any was hit. Without a hit the parameter is the
/// largest number.
pub open spec fn closest_upto(spheres: Seq<Sphere>, ray: Ray, range: Range, k: nat) -> (
    Fixed,
    Option<int>,
)
    decreases k,
{
    if k == 0 {
        (Fixed::max_spec(), None)
    } else {
        let best = closest_upto(spheres, ray, range, (k - 1) as nat);
        match intersect_ray_sphere_spec(ray, spheres[k - 1]) {
            None => best,
            Some((t1, t2)) => closer_spec(closer_spec(best, range, t1, k - 1), range, t2, k - 1),
        }
    }
}

/// The closest hit of the ray within `range`: its parameter and the index
/// of the sphere.
pub open spec fn closest_intersection_spec(spheres: Seq<Sphere>, ray: Ray, range: Range) -> Option<
    (Fixed, int),
> {
    let best = closest_upto(spheres, ray, range, spheres.len());
    match best.1 {
        None => None,
        Some(i) => Some((best.0, i)),
    }
}

/// Whether `t` is a parameter within `range` at which the ray meets the sphere.
pub open spec fn is_hit(ray: Ray, sphere: Sphere, range: Range, t: Fixed) -> bool {
    match intersect_ray_sphere_spec(ray, sphere) {
        None => false,
        Some((t1, t2)) => (t == t1 || t == t2) && range.isin_spec(t),
    }
}

impl TracerView {
    /// Whether something lies between `point` and the light: along the
    /// vector to a point light up to the light itself, along the direction
    /// of a directional light without end.
    pub open spec fn in_shadow_spec(self, light: Light, point: Vector3) -> bool {
        match light {
            Light::Ambient { .. } => false,
            Light::Point { position, .. } => closest_intersection_spec(
                self.spheres,
                Ray { origin: point, direction: position.minus_spec(point) },
                Range { min: Fixed { raw: SHADOW_START_RAW }, max: Fixed::one_spec() },
            ).is_some(),
            Light::Directional { direction, .. } => closest_intersection_spec(
                self.spheres,
                Ray { origin: point, direction },
                Range { min: Fixed { raw: SHADOW_START_RAW }, max: Fixed::max_spec() },
            ).is_some(),
        }
    }

    /// What one light adds at `point`: an ambient light its intensity; any
    /// other nothing where the point lies in its shadow, else its diffuse
    /// and specular terms.
    pub open spec fn lit_by_spec(
        self,
        light: Light,
        point: Vector3,
        view: Vector3,
        normal: Vector3,
        specular: i32,
    ) -> Fixed {
        match light {
            Light::Ambient { intensity } => intensity,
            _ => if self.in_shadow_spec(light, point) {
                Fixed::zero_spec()
            } else {
                light_term_spec(
                    light.intensity_spec(),
                    normal,
                    crate::illumination::light_vector_spec(light, point),
                    view,
                    specular,
                )
            },
        }
    }

    /// The sum of what the first `k` lights add at `point`.
    pub open spec fn lighting_upto(
        self,
        point: Vector3,
        view: Vector3,
        normal: Vector3,
        specular: i32,
        k: nat,
    ) -> Fixed
        decreases k,
    {
        if k == 0 {
            Fixed::zero_spec()
        } else {
            self.lighting_upto(point, view, normal, specular, (k - 1) as nat).add_spec(
                self.lit_by_spec(self.lights[k - 1], point, view, normal, specular),
            )
        }
    }

    /// The illumination at `point` with shadows.
    pub open spec fn compute_lighting_spec(
        self,
        point: Vector3,
        view: Vector3,
        normal: Vector3,
        specular: i32,
    ) -> Fixed {
        self.lighting_upto(point, view, normal, specular, self.lights.len())
    }

    /// The colour of the sphere `index` where the ray meets it at the
    /// parameter `t`, lit by the lights of the scene.
    pub open spec fn local_color_spec(self, ray: Ray, t: Fixed, index: int) -> Color {
        let sphere = self.spheres[index];
        let point = ray.point_spec(t);
        let normal = point.minus_spec(sphere.center).normalize_spec();
        sphere.color.scaled_spec(
            self.compute_lighting_spec(point, ray.direction.negated_spec(), normal, sphere.specular),
        )
    }

    /// The ray that leaves the sphere `index` as the mirror image of the
    /// view direction, from where `ray` meets it at the parameter `t`.
    pub open spec fn reflected_ray_spec(self, ray: Ray, t: Fixed, index: int) -> Ray {
        let point = ray.point_spec(t);
        let normal = point.minus_spec(self.spheres[index].center).normalize_spec();
        Ray { origin: point, direction: reflect_spec(ray.direction.negated_spec(), normal) }
    }

    /// The colour that arrives along `ray` from within `range`: black where
    /// nothing is hit; else the lit colour of the closest sphere, mixed by
    /// its reflectivity with what arrives along the reflected ray, as long
    /// as the sphere reflects and `depth` is not used up.
    pub open spec fn trace_ray_spec(self, ray: Ray, range: Range, depth: nat) -> Color
        decreases depth,
    {
        match closest_intersection_spec(self.spheres, ray, range) {
            None => Color::black_spec(),
            Some((t, index)) => {
                let local = self.local_color_spec(ray, t, index);
                let r = self.spheres[index].reflective;
                if r.raw <= 0 || depth == 0 {
                    local
                } else {
                    let reflected = self.trace_ray_spec(
                        self.reflected_ray_spec(ray, t, index),
                        Range { min: Fixed { raw: REFLECTION_START_RAW }, max: Fixed::max_spec() },
                        (depth - 1) as nat,
                    );
                    local.blend_spec(reflected, r)
                }
            },
        }
    }
}

/// The direction from the eye through the canvas point `(x, y)` of a
/// canvas of the given size: `(x / w, y / h, 1)`.
pub open spec fn canvas_to_viewport_spec(x: int, y: int, size: Rectangle) -> Vector3 {
    Vector3 {
        x: Fixed::from_int_spec(x).div_spec(Fixed::from_int_spec(size.w as int)),
        y: Fixed::from_int_spec(y).div_spec(Fixed::from_int_spec(size.h as int)),
        z: Fixed::one_spec(),
    }
}

impl RayTracer {
    /// The two parameters at which the ray meets the sphere, the smaller
    /// first; none where the discriminant is negative.
    pub fn intersect_ray_sphere(&self, ray: &Ray, sphere: &Sphere) -> (r: Option<(Fixed, Fixed)>)
        ensures
            r == intersect_ray_sphere_spec(*ray, *sphere),
            r.is_none() == (discriminant_spec(*ray, *sphere).raw < 0),
            r matches Some((t1, t2)) ==> t1.raw <= t2.raw,
    {
        proof {
            lemma_roots_ordered(*ray, *sphere);
        }
        let oc = ray.origin.minus(&sphere.center);
        let a = ray.direction.dot(&ray.direction);
        let b = Fixed::from_int(2).mul(oc.dot(&ray.direction));
        let c = oc.dot(&oc).sub(sphere.radius.mul(sphere.radius));
        let discriminant = b.mul(b).sub(Fixed::from_int(4).mul(a).mul(c));
        if discriminant.raw < 0 {
            None
        } else {
            let root = discriminant.sqrt();
            let twice_a = Fixed::from_int(2).mul(a);
            Some((b.neg().sub(root).div(twice_a), b.neg().add(root).div(twice_a)))
        }
    }

    /// The closest hit of the ray within `range`: its parameter and the
    /// sphere. Of two spheres hit at the same parameter the earlier in the
    /// scene is returned.
    pub fn closest_intersection(&self, ray: &Ray, range: &Range) -> (r: Option<(Fixed, &Sphere)>)
        ensures
            r.is_some() == closest_intersection_spec(self.spheres@, *ray, *range).is_some(),
            r.is_some() ==> {
                let (t, index) = closest_intersection_spec(self.spheres@, *ray, *range).unwrap();
                &&& r.unwrap().0 == t
                &&& 0 <= index < self.spheres@.len()
                &&& *r.unwrap().1 == self.spheres@[index]
            },
            r matches Some((t, s)) ==> is_hit(*ray, *s, *range, t),
            r matches Some((t, s)) ==> forall|j: int, u: Fixed|
                0 <= j < self.spheres@.len() && #[trigger] is_hit(*ray, self.spheres@[j], *range, u)
                    ==> t.raw <= u.raw,
            r.is_none() ==> forall|j: int, u: Fixed|
                0 <= j < self.spheres@.len() ==> !#[trigger] is_hit(*ray, self.spheres@[j], *range, u),
    {
        proof {
            lemma_closest_is_first_hit(self.spheres@, *ray, *range);
        }
        let mut closest_sphere: Option<usize> = None;
        let mut closest_t = Fixed::max_value();
        let mut k: usize = 0;
        while k < self.spheres.len()
            invariant
                k <= self.spheres@.len(),
                closest_t == closest_upto(self.spheres@, *ray, *range, k as nat).0,
                match closest_sphere {
                    None => closest_upto(self.spheres@, *ray, *range, k as nat).1.is_none(),
                    Some(i) => i < k && closest_upto(self.spheres@, *ray, *range, k as nat).1 == Some(
                        i as int,
                    ),
                },
            decreases self.spheres@.len() - k,
        {
            match self.intersect_ray_sphere(ray, &self.spheres[k]) {
                None => {},
                Some((t1, t2)) => {
                    if t1.raw < closest_t.raw && range.isin(t1) {
                        closest_t = t1;
                        closest_sphere = Some(k);
                    }
                    if t2.raw < closest_t.raw && range.isin(t2) {
                        closest_t = t2;
                        closest_sphere = Some(k);
                    }
                },
            }
            k = k + 1;
        }
        match closest_sphere {
            None => None,
            Some(i) => Some((closest_t, &self.spheres[i])),
        }
    }

    /// Whether something lies between `point` and the light.
    pub fn in_shadow(&self, light: &Light, point: &Vector3) -> (r: bool)
        ensures
            r == self@.in_shadow_spec(*light, *point),
    {
        match light {
            Light::Ambient { .. } => false,
            Light::Point { position, .. } => self.closest_intersection(
                &Ray { origin: *point, direction: position.minus(point) },
                &Range { min: Fixed::from_raw(SHADOW_START_RAW), max: Fixed::one() },
            ).is_some(),
            Light::Directional { direction, .. } => self.closest_intersection(
                &Ray { origin: *point, direction: *direction },
                &Range { min: Fixed::from_raw(SHADOW_START_RAW), max: Fixed::max_value() },
            ).is_some(),
        }
    }

    /// The illumination at the origin of `ray`, whose direction points to
    /// the viewer, on a surface with the given normal and specular
    /// exponent. A light adds nothing to a point in its shadow.
    pub fn compute_lighting(&self, ray: &Ray, normal: &Vector3, specular: i32) -> (i: Fixed)
        ensures
            i == self@.compute_lighting_spec(ray.origin, ray.direction, *normal, specular),
            crate::illumination::lights_nonnegative(self.lights@) ==> i.raw >= 0,
    {
        proof {
            if crate::illumination::lights_nonnegative(self.lights@) {
                lemma_lighting_nonnegative(
                    self@,
                    ray.origin,
                    ray.direction,
                    *normal,
                    specular,
                    self.lights@.len(),
                );
            }
        }
        let mut i = Fixed::zero();
        let mut k: usize = 0;
        while k < self.lights.len()
            invariant
                k <= self.lights@.len(),
                i == self@.lighting_upto(ray.origin, ray.direction, *normal, specular, k as nat),
            decreases self.lights@.len() - k,
        {
            let light = &self.lights[k];
            let part = match light {
                Light::Ambient { intensity } => *intensity,
                _ => {
                    if self.in_shadow(light, &ray.origin) {
                        Fixed::zero()
                    } else {
                        light_term(
                            light.intensity(),
                            normal,
                            &crate::illumination::light_vector(light, &ray.origin),
                            &ray.direction,
                            specular,
                        )
                    }
                },
            };
            i = i.add(part);
            k = k + 1;
        }
        i
    }

    /// The mirror image of `direction` about `normal`.
    pub fn reflect_ray(&self, direction: &Vector3, normal: &Vector3) -> (r: Vector3)
        ensures
            r == reflect_spec(*direction, *normal),
    {
        reflect(direction, normal)
    }

    /// The colour that arrives along `ray` from within `range`, with at
    /// most `depth` reflections.
    pub fn trace_ray(&self, ray: &Ray, range: &Range, depth: u32) -> (c: Color)
        ensures
            c == self@.trace_ray_spec(*ray, *range, depth as nat),
        decreases depth,
    {
        match self.closest_intersection(ray, range) {
            None => Color::black(),
            Some((closest_t, closest_sphere)) => {
                let point = ray.point(closest_t);
                let normal = point.minus(&closest_sphere.center).normalize();
                let view = ray.direction.negated();
                let lighting = self.compute_lighting(
                    &Ray { origin: point, direction: view },
                    &normal,
                    closest_sphere.specular,
                );
                let local_color = closest_sphere.color.scaled(lighting);
                let r = closest_sphere.reflective;
                if r.raw <= 0 || depth == 0 {
                    local_color
                } else {
                    let reflected_ray = Ray { origin: point, direction: self.reflect_ray(&view, &normal) };
                    let reflected_color = self.trace_ray(
                        &reflected_ray,
                        &Range { min: Fixed::from_raw(REFLECTION_START_RAW), max: Fixed::max_value() },
                        depth - 1,
                    );
                    local_color.blend(&reflected_color, r)
                }
            },
        }
    }

    /// The direction from the eye through the canvas point `(x, y)`.
    pub fn canvas_to_viewport(&self, x: i32, y: i32, size: &Rectangle) -> (d: Vector3)
        ensures
            d == canvas_to_viewport_spec(x as int, y as int, *size),
    {
        Vector3 {
            x: Fixed::from_int(x).div(Fixed::from_int(size.w)),
            y: Fixed::from_int(y).div(Fixed::from_int(size.h)),
            z: Fixed::one(),
        }
    }

    /// Sets one pixel of the output; see [`put_pixels`](crate::canvas::put_pixels).
    pub fn put_pixels(&self, x: i32, y: i32, size: &Rectangle, color: Color, data: &mut Vec<u8>)
        ensures
            final(data)@ == put_pixel_spec(old(data)@, *size, x as int, y as int, color),
            final(data)@.len() == old(data)@.len(),
    {
        put_pixels(data, size, x, y, color)
    }
}

impl TracerView {
    /// The colour of the canvas point `(x, y)`: what arrives at the eye
    /// along the ray through that point of the viewport, from the viewport on.
    pub open spec fn pixel_color_spec(self, size: Rectangle, x: int, y: int, depth: nat) -> Color {
        self.trace_ray_spec(
            Ray { origin: Vector3::zero_spec(), direction: canvas_to_viewport_spec(x, y, size) },
            Range { min: Fixed::one_spec(), max: Fixed::max_spec() },
            depth,
        )
    }

    /// The pixels after the points `(x, y), ..., (x, y_end)` of one column
    /// are traced and set.
    pub open spec fn render_column_spec(
        self,
        data: Seq<u8>,
        size: Rectangle,
        depth: nat,
        x: int,
        y: int,
        y_end: int,
    ) -> Seq<u8>
        decreases y_end + 1 - y,
    {
        if y > y_end {
            data
        } else {
            self.render_column_spec(
                put_pixel_spec(data, size, x, y, self.pixel_color_spec(size, x, y, depth)),
                size,
                depth,
                x,
                y + 1,
                y_end,
            )
        }
    }

    /// The pixels after the columns `x..=x_end` are traced, each from the
    /// bottom of the canvas to its top.
    pub open spec fn render_columns_spec(
        self,
        data: Seq<u8>,
        size: Rectangle,
        depth: nat,
        x: int,
        x_end: int,
    ) -> Seq<u8>
        decreases x_end + 1 - x,
    {
        if x > x_end {
            data
        } else {
            self.render_columns_spec(
                self.render_column_spec(
                    data,
                    size,
                    depth,
                    x,
                    -div_toward_zero(size.h as int, 2),
                    div_toward_zero(size.h as int, 2),
                ),
                size,
                depth,
                x + 1,
                x_end,
            )
        }
    }

    /// The pixels after every point of the canvas is traced: the columns
    /// from `-w / 2` to `w / 2`, each from `-h / 2` to `h / 2`.
    pub open spec fn render_spec(self, data: Seq<u8>, size: Rectangle, depth: nat) -> Seq<u8> {
        self.render_columns_spec(
            data,
            size,
            depth,
            -div_toward_zero(size.w as int, 2),
            div_toward_zero(size.w as int, 2),
        )
    }
}

impl RayTracer {
    /// Traces one column of the canvas.
    fn render_column(&self, size: &Rectangle, depth: u32, x: i32, data: &mut Vec<u8>)
        ensures
            final(data)@ == self@.render_column_spec(
                old(data)@,
                *size,
                depth as nat,
                x as int,
                -div_toward_zero(size.h as int, 2),
                div_toward_zero(size.h as int, 2),
            ),
            final(data)@.len() == old(data)@.len(),
    {
        let half: i32 = size.h / 2;
        let mut y: i32 = -half;
        while y <= half
            invariant
                half == div_toward_zero(size.h as int, 2),
                -0x4000_0000 <= half <= 0x3fff_ffff,
                data@.len() == old(data)@.len(),
                -half <= y <= half + 1 || half < 0,
                self@.render_column_spec(data@, *size, depth as nat, x as int, y as int, half as int)
                    == self@.render_column_spec(
                    old(data)@,
                    *size,
                    depth as nat,
                    x as int,
                    -half as int,
                    half as int,
                ),
            decreases half + 1 - y,
        {
            let ray = Ray { origin: Vector3::zero(), direction: self.canvas_to_viewport(x, y, size) };
            let range = Range { min: Fixed::one(), max: Fixed::max_value() };
            let color = self.trace_ray(&ray, &range, depth);
            self.put_pixels(x, y, size, color, data);
            y = y + 1;
        }
    }

    /// Traces the scene onto a canvas of the given size: one ray from the
    /// eye at the origin through each point of the canvas, with at most
    /// `depth` reflections, the colour written to `data`.
    pub fn render(&self, size: &Rectangle, depth: u32, data: &mut Vec<u8>)
        ensures
            final(data)@ == self@.render_spec(old(data)@, *size, depth as nat),
            final(data)@.len() == old(data)@.len(),
    {
        let half: i32 = size.w / 2;
        let mut x: i32 = -half;
        while x <= half
            invariant
                half == div_toward_zero(size.w as int, 2),
                -0x4000_0000 <= half <= 0x3fff_ffff,
                -half <= x <= half + 1 || half < 0,
                data@.len() == old(data)@.len(),
                self@.render_columns_spec(data@, *size, depth as nat, x as int, half as int)
                    == self@.render_columns_spec(
                    old(data)@,
                    *size,
                    depth as nat,
                    -half as int,
                    half as int,
                ),
            decreases half + 1 - x,
        {
            self.render_column(size, depth, x, data);
            x = x + 1;
        }
    }
}

/// Where a ray meets a sphere, the first of the two parameters is not the
/// larger one; and it meets none exactly where the discriminant is negative.
pub proof fn lemma_roots_ordered(ray: Ray, sphere: Sphere)
    ensures
        intersect_ray_sphere_spec(ray, sphere).is_none() <==> discriminant_spec(ray, sphere).raw < 0,
        intersect_ray_sphere_spec(ray, sphere) matches Some((t1, t2)) ==> t1.raw <= t2.raw,
{
    let disc = discriminant_spec(ray, sphere);
    if disc.raw >= 0 {
        let a = quadratic_a_spec(ray);
        let b = quadratic_b_spec(ray, sphere);
        let root = disc.sqrt_spec();
        let two = Fixed::from_int_spec(2);
        crate::math::lemma_dot_self_nonnegative(ray.direction);
        crate::fixed::lemma_mul_nonnegative(two, a);
        crate::fixed::lemma_sqrt_nonnegative(disc);
        crate::fixed::lemma_div_monotone(
            b.neg_spec().sub_spec(root),
            b.neg_spec().add_spec(root),
            two.mul_spec(a),
        );
    }
}

/// The closest hit is a hit, and no hit of any sphere within the range
/// comes before it; there is none exactly where no sphere is hit within
/// the range.
pub proof fn lemma_closest_is_first_hit(spheres: Seq<Sphere>, ray: Ray, range: Range)
    ensures
        match closest_intersection_spec(spheres, ray, range) {
            None => forall|j: int, u: Fixed|
                0 <= j < spheres.len() ==> !#[trigger] is_hit(ray, spheres[j], range, u),
            Some((t, i)) => {
                &&& 0 <= i < spheres.len()
                &&& is_hit(ray, spheres[i], range, t)
                &&& forall|j: int, u: Fixed|
                    0 <= j < spheres.len() && #[trigger] is_hit(ray, spheres[j], range, u) ==> t.raw
                        <= u.raw
            },
        },
{
    lemma_closest_upto(spheres, ray, range, spheres.len());
}

/// What [`lemma_closest_is_first_hit`] says, of the first `k` spheres.
pub proof fn lemma_closest_upto(spheres: Seq<Sphere>, ray: Ray, range: Range, k: nat)
    requires
        k <= spheres.len(),
    ensures
        match closest_upto(spheres, ray, range, k).1 {
            None => {
                &&& closest_upto(spheres, ray, range, k).0 == Fixed::max_spec()
                &&& forall|j: int, u: Fixed| 0 <= j < k ==> !#[trigger] is_hit(ray, spheres[j], range, u)
            },
            Some(i) => {
                &&& 0 <= i < k
                &&& is_hit(ray, spheres[i], range, closest_upto(spheres, ray, range, k).0)
                &&& forall|j: int, u: Fixed|
                    0 <= j < k && #[trigger] is_hit(ray, spheres[j], range, u) ==> closest_upto(
                        spheres,
                        ray,
                        range,
                        k,
                    ).0.raw <= u.raw
            },
        },
    decreases k,
{
    if k > 0 {
        lemma_closest_upto(spheres, ray, range, (k - 1) as nat);
    }
}

/// A sphere that does not reflect is seen the same at every recursion
/// depth: where the closest sphere that a ray hits has a reflectivity of
/// zero or less, tracing with any depth gives what tracing with depth zero
/// gives.
pub proof fn lemma_matt_sphere_ignores_depth(scene: TracerView, ray: Ray, range: Range, depth: nat)
    requires
        closest_intersection_spec(scene.spheres, ray, range) matches Some((t, i))
            ==> scene.spheres[i].reflective.raw <= 0,
    ensures
        scene.trace_ray_spec(ray, range, depth) == scene.trace_ray_spec(ray, range, 0),
{
}

/// With no depth left, a ray sees the lit colour of what it hits, whatever
/// reflects.
pub proof fn lemma_depth_zero_is_local(scene: TracerView, ray: Ray, range: Range)
    ensures
        scene.trace_ray_spec(ray, range, 0) == match closest_intersection_spec(
            scene.spheres,
            ray,
            range,
        ) {
            None => Color::black_spec(),
            Some((t, i)) => scene.local_color_spec(ray, t, i),
        },
{
}

/// Tracing one column gives each of its pixels the colour that arrives
/// along the ray through it, and leaves every other pixel as it was.
pub proof fn lemma_render_column_pixelwise(
    scene: TracerView,
    data: Seq<u8>,
    size: Rectangle,
    depth: nat,
    x: int,
    y: int,
    y_end: int,
    px: int,
    py: int,
)
    requires
        crate::canvas::data_fits(data, size),
        crate::canvas::on_canvas(size, px, py),
    ensures
        crate::canvas::data_fits(scene.render_column_spec(data, size, depth, x, y, y_end), size),
        crate::canvas::pixel_bytes(scene.render_column_spec(data, size, depth, x, y, y_end), size, px, py)
            == if px == x && y <= py <= y_end {
            crate::canvas::color_bytes_spec(scene.pixel_color_spec(size, px, py, depth))
        } else {
            crate::canvas::pixel_bytes(data, size, px, py)
        },
    decreases y_end + 1 - y,
{
    if y <= y_end {
        let color = scene.pixel_color_spec(size, x, y, depth);
        crate::canvas::lemma_put_pixel_pixelwise(data, size, x, y, color, px, py);
        lemma_render_column_pixelwise(
            scene,
            put_pixel_spec(data, size, x, y, color),
            size,
            depth,
            x,
            y + 1,
            y_end,
            px,
            py,
        );
    }
}

/// What [`lemma_render_pixelwise`] says, of the columns `x..=x_end`.
pub proof fn lemma_render_columns_pixelwise(
    scene: TracerView,
    data: Seq<u8>,
    size: Rectangle,
    depth: nat,
    x: int,
    x_end: int,
    px: int,
    py: int,
)
    requires
        crate::canvas::data_fits(data, size),
        crate::canvas::on_canvas(size, px, py),
    ensures
        crate::canvas::data_fits(scene.render_columns_spec(data, size, depth, x, x_end), size),
        crate::canvas::pixel_bytes(scene.render_columns_spec(data, size, depth, x, x_end), size, px, py)
            == if x <= px <= x_end && -div_toward_zero(size.h as int, 2) <= py <= div_toward_zero(
            size.h as int,
            2,
        ) {
            crate::canvas::color_bytes_spec(scene.pixel_color_spec(size, px, py, depth))
        } else {
            crate::canvas::pixel_bytes(data, size, px, py)
        },
    decreases x_end + 1 - x,
{
    if x <= x_end {
        let half = div_toward_zero(size.h as int, 2);
        lemma_render_column_pixelwise(scene, data, size, depth, x, -half, half, px, py);
        lemma_render_columns_pixelwise(
            scene,
            scene.render_column_spec(data, size, depth, x, -half, half),
            size,
            depth,
            x + 1,
            x_end,
            px,
            py,
        );
    }
}

/// The traced picture is a function of the scene alone: every pixel whose
/// centred coordinates lie within half the width and half the height of the
/// centre shows the colour that arrives along the ray through it, whatever
/// the buffer held; every other pixel stays as it was.
pub proof fn lemma_render_pixelwise(
    scene: TracerView,
    data: Seq<u8>,
    size: Rectangle,
    depth: nat,
    px: int,
    py: int,
)
    requires
        crate::canvas::data_fits(data, size),
        crate::canvas::on_canvas(size, px, py),
    ensures
        crate::canvas::data_fits(scene.render_spec(data, size, depth), size),
        crate::canvas::pixel_bytes(scene.render_spec(data, size, depth), size, px, py) == if 
            -div_toward_zero(size.w as int, 2) <= px <= div_toward_zero(size.w as int, 2)
            && -div_toward_zero(size.h as int, 2) <= py <= div_toward_zero(size.h as int, 2) {
            crate::canvas::color_bytes_spec(scene.pixel_color_spec(size, px, py, depth))
        } else {
            crate::canvas::pixel_bytes(data, size, px, py)
        },
{
    let half = div_toward_zero(size.w as int, 2);
    lemma_render_columns_pixelwise(scene, data, size, depth, -half, half, px, py);
}

/// Under lights of intensities that are not negative, no point is lit
/// with a negative intensity, in shadow or out of it.
pub proof fn lemma_lighting_nonnegative(
    scene: TracerView,
    point: Vector3,
    view: Vector3,
    normal: Vector3,
    specular: i32,
    k: nat,
)
    requires
        crate::illumination::lights_nonnegative(scene.lights),
        k <= scene.lights.len(),
    ensures
        scene.lighting_upto(point, view, normal, specular, k).raw >= 0,
    decreases k,
{
    if k > 0 {
        lemma_lighting_nonnegative(scene, point, view, normal, specular, (k - 1) as nat);
        let light = scene.lights[k - 1];
        crate::illumination::lemma_light_term_nonnegative(
            light.intensity_spec(),
            normal,
            crate::illumination::light_vector_spec(light, point),
            view,
            specular,
        );
    }
}

/// Shadows only darken: under lights of intensities that are not negative,
/// the illumination of a point with shadows is at most its illumination
/// without them.
pub proof fn lemma_shadows_only_darken(
    scene: TracerView,
    point: Vector3,
    view: Vector3,
    normal: Vector3,
    specular: i32,
    k: nat,
)
    requires
        crate::illumination::lights_nonnegative(scene.lights),
        k <= scene.lights.len(),
    ensures
        scene.lighting_upto(point, view, normal, specular, k).raw <= crate::illumination::illuminate_upto(
            point,
            normal,
            view,
            specular,
            scene.lights,
            k,
        ).raw,
    decreases k,
{
    if k > 0 {
        lemma_shadows_only_darken(scene, point, view, normal, specular, (k - 1) as nat);
        let light = scene.lights[k - 1];
        crate::illumination::lemma_contribution_nonnegative(light, point, normal, view, specular);
    }
}

} // verus!
