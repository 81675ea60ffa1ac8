//! The illumination model of both pipelines: ambient light, diffuse
//! reflection and specular highlights, summed over the lights of a scene.
use crate::fixed::Fixed;
use crate::math::Vector3;
use crate::scene::Light;
use vstd::prelude::*;

verus! {

/// The exponent that switches the specular term off.
pub const NO_SPECULAR: i32 = -1;

/// The cosine of the angle between `a` and `b`: their product divided by
/// the product of their lengths.
pub open spec fn cosine_spec(a: Vector3, b: Vector3) -> Fixed {
    a.dot_spec(b).div_spec(a.norm_spec().mul_spec(b.norm_spec()))
}

/// The mirror image of `l` about the normal `n`: `2 n (n . l) - l`.
pub open spec fn reflect_spec(l: Vector3, n: Vector3) -> Vector3 {
    n.scaled_spec(Fixed::from_int_spec(2).mul_spec(n.dot_spec(l))).minus_spec(l)
}

/// Diffuse reflection: the light's intensity times the cosine between the
/// normal and the light vector, where that cosine is positive.
pub open spec fn diffuse_spec(intensity: Fixed, normal: Vector3, l: Vector3) -> Fixed {
    let c = cosine_spec(l, normal);
    if c.raw > 0 {
        c.mul_spec(intensity)
    } else {
        Fixed::zero_spec()
    }
}

/// The specular highlight: the light's intensity times a power of the cosine
/// between the reflected light vector and the view vector, where that cosine
/// is positive.
pub open spec fn specular_spec(
    intensity: Fixed,
    normal: Vector3,
    l: Vector3,
    view: Vector3,
    exponent: i32,
) -> Fixed {
    let c = cosine_spec(reflect_spec(l, normal), view);
    if c.raw > 0 {
        c.powi_spec(exponent as int).mul_spec(intensity)
    } else {
        Fixed::zero_spec()
    }
}

/// What a light with the vector `l` toward it adds at a surface point: the
/// diffuse term, and the specular term unless the exponent is
/// [`NO_SPECULAR`].
pub open spec fn light_term_spec(
    intensity: Fixed,
    normal: Vector3,
    l: Vector3,
    view: Vector3,
    exponent: i32,
) -> Fixed {
    if exponent == NO_SPECULAR {
        diffuse_spec(intensity, normal, l)
    } else {
        diffuse_spec(intensity, normal, l).add_spec(
            specular_spec(intensity, normal, l, view, exponent),
        )
    }
}

/// The vector from `point` toward the light: to a point light's position,
/// or a directional light's direction.
pub open spec fn light_vector_spec(light: Light, point: Vector3) -> Vector3 {
    match light {
        Light::Ambient { .. } => Vector3::zero_spec(),
        Light::Point { position, .. } => position.minus_spec(point),
        Light::Directional { direction, .. } => direction,
    }
}

/// What one light adds at `point`: an ambient light its intensity, any other
/// its diffuse and specular terms.
pub open spec fn contribution_spec(
    light: Light,
    point: Vector3,
    normal: Vector3,
    view: Vector3,
    exponent: i32,
) -> Fixed {
    match light {
        Light::Ambient { intensity } => intensity,
        _ => light_term_spec(
            light.intensity_spec(),
            normal,
            light_vector_spec(light, point),
            view,
            exponent,
        ),
    }
}

/// The sum of what the first `k` lights add at `point`.
pub open spec fn illuminate_upto(
    point: Vector3,
    normal: Vector3,
    view: Vector3,
    exponent: i32,
    lights: Seq<Light>,
    k: nat,
) -> Fixed
    decreases k,
{
    if k == 0 {
        Fixed::zero_spec()
    } else {
        illuminate_upto(point, normal, view, exponent, lights, (k - 1) as nat).add_spec(
            contribution_spec(lights[k - 1], point, normal, view, exponent),
        )
    }
}

/// The intensity of the light that leaves `point` toward the viewer: the
/// sum of what every light adds.
pub open spec fn illuminate_spec(
    point: Vector3,
    normal: Vector3,
    view: Vector3,
    exponent: i32,
    lights: Seq<Light>,
) -> Fixed {
    illuminate_upto(point, normal, view, exponent, lights, lights.len())
}

/// Whether no light has a negative intensity.
pub open spec fn lights_nonnegative(lights: Seq<Light>) -> bool {
    forall|i: int| 0 <= i < lights.len() ==> (#[trigger] lights[i]).intensity_spec().raw >= 0
}

/// The cosine of the angle between `a` and `b`.
pub fn cosine(a: &Vector3, b: &Vector3) -> (c: Fixed)
    ensures
        c == cosine_spec(*a, *b),
{
    a.dot(b).div(a.norm().mul(b.norm()))
}

/// The mirror image of `l` about the normal `n`.
pub fn reflect(l: &Vector3, n: &Vector3) -> (r: Vector3)
    ensures
        r == reflect_spec(*l, *n),
{
    n.scaled(Fixed::from_int(2).mul(n.dot(l))).minus(l)
}

/// The diffuse reflection of a light with the vector `l` toward it.
pub fn diffuse(intensity: Fixed, normal: &Vector3, l: &Vector3) -> (r: Fixed)
    ensures
        r == diffuse_spec(intensity, *normal, *l),
{
    let c = cosine(l, normal);
    if c.raw > 0 {
        c.mul(intensity)
    } else {
        Fixed::zero()
    }
}

pub fn specular(intensity: Fixed, normal: &Vector3, l: &Vector3, view: &Vector3, exponent: i32) -> (r:
    Fixed)
    ensures
        r == specular_spec(intensity, *normal, *l, *view, exponent),
{
    let c = cosine(&reflect(l, normal), view);
    if c.raw > 0 {
        c.powi(exponent).mul(intensity)
    } else {
        Fixed::zero()
    }
}

/// What a light with the vector `l` toward it adds at a surface point.
pub fn light_term(intensity: Fixed, normal: &Vector3, l: &Vector3, view: &Vector3, exponent: i32) -> (r:
    Fixed)
    ensures
        r == light_term_spec(intensity, *normal, *l, *view, exponent),
{
    if exponent == NO_SPECULAR {
        diffuse(intensity, normal, l)
    } else {
        diffuse(intensity, normal, l).add(specular(intensity, normal, l, view, exponent))
    }
}

/// The vector from `point` toward the light.
pub fn light_vector(light: &Light, point: &Vector3) -> (l: Vector3)
    ensures
        l == light_vector_spec(*light, *point),
{
    match light {
        Light::Ambient { .. } => Vector3::zero(),
        Light::Point { position, .. } => position.minus(point),
        Light::Directional { direction, .. } => *direction,
    }
}

/// What one light adds at `point`.
pub fn contribution(light: &Light, point: &Vector3, normal: &Vector3, view: &Vector3, exponent: i32) -> (r:
    Fixed)
    ensures
        r == contribution_spec(*light, *point, *normal, *view, exponent),
{
    match light {
        Light::Ambient { intensity } => *intensity,
        _ => light_term(light.intensity(), normal, &light_vector(light, point), view, exponent),
    }
}

/// The intensity at the surface point `point` with the given normal, seen
/// along `view`: the sum over all lights, not clamped.
pub fn illuminate(
    point: &Vector3,
    normal: &Vector3,
    view: &Vector3,
    exponent: i32,
    lights: &Vec<Light>,
) -> (r: Fixed)
    ensures
        r == illuminate_spec(*point, *normal, *view, exponent, lights@),
        lights_nonnegative(lights@) ==> r.raw >= 0,
{
    let mut total = Fixed::zero();
    let mut k: usize = 0;
    while k < lights.len()
        invariant
            k <= lights@.len(),
            total == illuminate_upto(*point, *normal, *view, exponent, lights@, k as nat),
        decreases lights@.len() - k,
    {
        total = total.add(contribution(&lights[k], point, normal, view, exponent));
        k = k + 1;
    }
    proof {
        if lights_nonnegative(lights@) {
            lemma_illuminate_nonnegative(*point, *normal, *view, exponent, lights@, lights@.len());
        }
    }
    total
}

/// A light of an intensity that is not negative adds nothing negative.
pub proof fn lemma_light_term_nonnegative(
    intensity: Fixed,
    normal: Vector3,
    l: Vector3,
    view: Vector3,
    exponent: i32,
)
    requires
        intensity.raw >= 0,
    ensures
        light_term_spec(intensity, normal, l, view, exponent).raw >= 0,
{
    let c = cosine_spec(l, normal);
    if c.raw > 0 {
        crate::fixed::lemma_mul_nonnegative(c, intensity);
    }
    let s = cosine_spec(reflect_spec(l, normal), view);
    if s.raw > 0 {
        if exponent >= 0 {
            crate::fixed::lemma_pow_nonnegative(s, exponent as nat);
        } else {
            crate::fixed::lemma_pow_nonnegative(s, (-exponent) as nat);
            let p = s.pow_spec((-exponent) as nat);
            reveal(Fixed::div_spec);
            if p.raw != 0 {
                let d = p.raw as int;
                assert(4294967296int / d >= 0) by (nonlinear_arith)
                    requires
                        d > 0,
                ;
            }
        }
        crate::fixed::lemma_mul_nonnegative(s.powi_spec(exponent as int), intensity);
    }
}

/// No light of an intensity that is not negative darkens a point.
pub proof fn lemma_contribution_nonnegative(
    light: Light,
    point: Vector3,
    normal: Vector3,
    view: Vector3,
    exponent: i32,
)
    requires
        light.intensity_spec().raw >= 0,
    ensures
        contribution_spec(light, point, normal, view, exponent).raw >= 0,
{
    lemma_light_term_nonnegative(
        light.intensity_spec(),
        normal,
        light_vector_spec(light, point),
        view,
        exponent,
    );
}

/// The illumination under lights of intensities that are not negative is
/// not negative.
pub proof fn lemma_illuminate_nonnegative(
    point: Vector3,
    normal: Vector3,
    view: Vector3,
    exponent: i32,
    lights: Seq<Light>,
    k: nat,
)
    requires
        lights_nonnegative(lights),
        k <= lights.len(),
    ensures
        illuminate_upto(point, normal, view, exponent, lights, k).raw >= 0,
    decreases k,
{
    if k > 0 {
        lemma_illuminate_nonnegative(point, normal, view, exponent, lights, (k - 1) as nat);
        lemma_contribution_nonnegative(lights[k - 1], point, normal, view, exponent);
    }
}

} // verus!
