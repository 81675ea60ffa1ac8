use cpu_render::canvas::Rectangle;
use cpu_render::color::Color;
use cpu_render::fixed::Fixed;
use cpu_render::math::Vector3;
use cpu_render::raytracing::{Range, Ray, RayTracer, Sphere};
use cpu_render::scene::Light;

fn f(x: f64) -> Fixed {
    Fixed::from_raw((x * 65536.0).round() as i64)
}

fn to_f64(x: Fixed) -> f64 {
    x.raw as f64 / 65536.0
}

fn vec3(x: f64, y: f64, z: f64) -> Vector3 {
    Vector3::new(f(x), f(y), f(z))
}

fn sphere(center: Vector3, radius: f64, color: (f64, f64, f64), specular: i32, reflective: f64) -> Sphere {
    Sphere {
        center,
        radius: f(radius),
        color: Color::new(f(color.0), f(color.1), f(color.2)),
        specular,
        reflective: f(reflective),
    }
}

fn everything() -> Range {
    Range { min: f(1.), max: Fixed::max_value() }
}

#[test]
fn test_ray_sphere_intersection() {
    // sphere
    let r = f(1.0);
    let o = Vector3::new(f(0.0), f(0.0), f(0.0));

    // ray
    let e = Vector3::new(f(1.), f(1.), f(1.));
    let d = Vector3::new(f(-1.), f(-1.), f(-1.));

    let j = &e - &o;
    let a = d.dot(&d);
    let b = f(2.).mul(d.dot(&j));
    let c = j.dot(&j).sub(r.mul(r));
    let discriminant = b.mul(b).sub(f(4.).mul(a).mul(c));

    println!(
        "a:{}, b:{}, c:{}, discriminant:{}",
        to_f64(a),
        to_f64(b),
        to_f64(c),
        to_f64(discriminant)
    );
    assert!(discriminant.raw > 0);

    let t1 = b.neg().sub(discriminant.sqrt()).div(f(2.).mul(a));
    let t2 = b.neg().add(discriminant.sqrt()).div(f(2.).mul(a));

    println!("t1:{}, t2: {}", to_f64(t1), to_f64(t2));

    let p1 = &e + &(t1 * &d);
    let p2 = &e + &(t2 * &d);
    println!("p1:{:?} p2:{:?}", p1, p2);

    let p1 = p1.norm();
    let p2 = p2.norm();
    println!("p1 norm:{:?} p2 norm:{:?}", p1, p2);

    assert_eq!(to_f64(p1).round(), 1., "p1");
    assert_eq!(to_f64(p2).round(), 1., "p2");
}

#[test]
fn test_ray_triangle_intersection() {
    // ray
    let ray = Ray { origin: vec3(1., 1., 1.), direction: vec3(-1., -1., -1.) };

    // triangle
    let a = vec3(1., 0., 0.);
    let b = vec3(0., 1., 0.);
    let c = vec3(0., 0., 1.);

    {
        let ((a, b, c), (d, e, f_), (g, h, i), (j, k, l)) = (
            (a.x.sub(b.x), a.y.sub(b.y), a.z.sub(b.z)),
            (a.x.sub(c.x), a.y.sub(c.y), a.z.sub(c.z)),
            (ray.direction.x, ray.direction.y, ray.direction.z),
            (a.x.sub(ray.origin.x), a.y.sub(ray.origin.y), a.z.sub(ray.origin.z)),
        );

        let m = a.mul(e.mul(i).sub(h.mul(f_)))
            .add(b.mul(g.mul(f_).sub(d.mul(i))))
            .add(c.mul(d.mul(h).sub(e.mul(g))));
        let beta = j
            .mul(e.mul(i).sub(h.mul(f_)))
            .add(k.mul(g.mul(f_).sub(d.mul(i))))
            .add(l.mul(d.mul(h).sub(e.mul(g))))
            .div(m);
        let gamma = i
            .mul(a.mul(k).sub(j.mul(b)))
            .add(h.mul(j.mul(c).sub(a.mul(l))))
            .add(g.mul(b.mul(l).sub(k.mul(c))))
            .div(m);
        let alpha = f(1.).sub(beta).sub(gamma);
        let t = f_
            .mul(a.mul(k).sub(j.mul(b)))
            .add(e.mul(j.mul(c).sub(a.mul(l))))
            .add(d.mul(b.mul(l).sub(k.mul(c))))
            .neg()
            .div(m);
        let p = ray.point(t);

        println!(
            "alpha:{}, beta:{}, gamma:{}, t:{}",
            to_f64(alpha),
            to_f64(beta),
            to_f64(gamma),
            to_f64(t)
        );
        println!("p:{:?}", p);

        let (t0, t1) = (f(0.), f(1.));

        let hit = if t.raw < t0.raw || t.raw > t1.raw {
            false
        } else if gamma.raw < 0 || gamma.raw > f(1.).raw {
            false
        } else if beta.raw < 0 || beta.raw > f(1.).sub(gamma).raw {
            false
        } else {
            true
        };

        assert_eq!(hit, true);
    }
}

#[test]
fn ray_point_is_origin_plus_scaled_direction() {
    let ray = Ray { origin: vec3(1., 2., 3.), direction: vec3(0.5, -1., 2.) };
    assert_eq!(ray.point(f(2.)), vec3(2., 0., 7.));
    assert_eq!(ray.point(f(0.)), vec3(1., 2., 3.));
}

#[test]
fn range_is_open_at_both_ends() {
    let range = Range { min: f(1.), max: f(2.) };
    assert!(range.isin(f(1.5)));
    assert!(!range.isin(f(1.)));
    assert!(!range.isin(f(2.)));
    assert!(!range.isin(f(0.5)));
    assert!(!Range { min: f(0.), max: Fixed::max_value() }.isin(Fixed::max_value()));
}

#[test]
fn ray_along_z_hits_unit_sphere_at_two() {
    let tracer = RayTracer {
        spheres: vec![sphere(vec3(0., 0., 3.), 1., (255., 0., 0.), -1, 0.)],
        lights: vec![],
    };
    let ray = Ray { origin: vec3(0., 0., 0.), direction: vec3(0., 0., 1.) };
    let roots = tracer.intersect_ray_sphere(&ray, &tracer.spheres[0]);
    assert_eq!(roots, Some((f(2.), f(4.))));
    let hit = tracer.closest_intersection(&ray, &everything());
    let (t, s) = hit.expect("the ray meets the sphere");
    assert_eq!(t, f(2.));
    assert_eq!(*s, tracer.spheres[0]);
}

#[test]
fn ray_that_misses_has_no_roots() {
    let tracer = RayTracer {
        spheres: vec![sphere(vec3(0., 5., 3.), 1., (255., 0., 0.), -1, 0.)],
        lights: vec![],
    };
    let ray = Ray { origin: vec3(0., 0., 0.), direction: vec3(0., 0., 1.) };
    assert_eq!(tracer.intersect_ray_sphere(&ray, &tracer.spheres[0]), None);
    assert!(tracer.closest_intersection(&ray, &everything()).is_none());
    assert_eq!(tracer.trace_ray(&ray, &everything(), 3), Color::black());
}

#[test]
fn roots_come_in_ascending_order() {
    let tracer = RayTracer { spheres: vec![], lights: vec![] };
    let s = sphere(vec3(1., -2., 6.), 3., (0., 0., 0.), -1, 0.);
    for (dx, dy) in [(0., 0.), (0.2, -0.3), (0.1, -0.5), (-0.1, -0.2)] {
        let ray = Ray { origin: vec3(0., 0., 0.), direction: vec3(dx, dy, 1.) };
        if let Some((t1, t2)) = tracer.intersect_ray_sphere(&ray, &s) {
            assert!(t1.raw <= t2.raw);
            // both points lie on the sphere, up to the resolution
            for t in [t1, t2] {
                let distance = ray.point(t).minus(&s.center).norm();
                assert!((to_f64(distance) - 3.).abs() < 0.01, "distance {}", to_f64(distance));
            }
        }
    }
}

#[test]
fn closest_hit_is_the_nearest_sphere_in_range() {
    let tracer = RayTracer {
        spheres: vec![
            sphere(vec3(0., 0., 10.), 1., (0., 0., 255.), -1, 0.),
            sphere(vec3(0., 0., 5.), 1., (0., 255., 0.), -1, 0.),
        ],
        lights: vec![],
    };
    let ray = Ray { origin: vec3(0., 0., 0.), direction: vec3(0., 0., 1.) };
    let (t, s) = tracer.closest_intersection(&ray, &everything()).unwrap();
    assert_eq!(t, f(4.));
    assert_eq!(*s, tracer.spheres[1]);
    // with the near sphere out of range the far one is hit
    let (t, s) = tracer.closest_intersection(&ray, &Range { min: f(6.5), max: Fixed::max_value() }).unwrap();
    assert_eq!(t, f(9.));
    assert_eq!(*s, tracer.spheres[0]);
    // from inside the range between the spheres' far sides only the far root counts
    let (t, _) = tracer.closest_intersection(&ray, &Range { min: f(4.5), max: f(6.5) }).unwrap();
    assert_eq!(t, f(6.));
    assert!(tracer.closest_intersection(&ray, &Range { min: f(12.), max: Fixed::max_value() }).is_none());
}

#[test]
fn ambient_light_alone_gives_the_flat_colour() {
    let tracer = RayTracer {
        spheres: vec![sphere(vec3(0., 0., 3.), 1., (200., 100., 50.), 500, 0.)],
        lights: vec![Light::Ambient { intensity: f(0.5) }],
    };
    let ray = Ray { origin: vec3(0., 0., 0.), direction: vec3(0., 0., 1.) };
    assert_eq!(
        tracer.trace_ray(&ray, &everything(), 0),
        Color::new(f(100.), f(50.), f(25.))
    );
}

#[test]
fn matt_sphere_is_the_same_at_every_depth() {
    let tracer = RayTracer {
        spheres: vec![
            sphere(vec3(0., -1., 3.), 1., (255., 0., 0.), 500, 0.),
            sphere(vec3(2., 0., 4.), 1., (0., 0., 255.), 500, 0.3),
            sphere(vec3(0., -5001., 0.), 5000., (255., 255., 0.), 1000, 0.5),
        ],
        lights: vec![
            Light::Ambient { intensity: f(0.2) },
            Light::Point { intensity: f(0.6), position: vec3(2., 1., 0.) },
            Light::Directional { intensity: f(0.2), direction: vec3(1., 4., 4.) },
        ],
    };
    // this ray meets the first sphere, which does not reflect
    let ray = Ray { origin: vec3(0., 0., 0.), direction: vec3(0., -0.2, 1.) };
    let (_, s) = tracer.closest_intersection(&ray, &everything()).unwrap();
    assert_eq!(*s, tracer.spheres[0]);
    let base = tracer.trace_ray(&ray, &everything(), 0);
    for depth in 1..5 {
        assert_eq!(tracer.trace_ray(&ray, &everything(), depth), base);
    }
    assert_ne!(base, Color::black());
}

#[test]
fn mirror_sphere_blends_in_what_it_reflects() {
    // A mirror faces the eye; behind the eye lies a green sphere.
    let tracer = RayTracer {
        spheres: vec![
            sphere(vec3(0., 0., 3.), 1., (200., 0., 0.), -1, 0.5),
            sphere(vec3(0., 0., -3.), 1., (0., 200., 0.), -1, 0.),
        ],
        lights: vec![Light::Ambient { intensity: f(1.) }],
    };
    let ray = Ray { origin: vec3(0., 0., 0.), direction: vec3(0., 0., 1.) };
    assert_eq!(tracer.trace_ray(&ray, &everything(), 0), Color::new(f(200.), f(0.), f(0.)));
    // local * (1 - 0.5) + reflected * 0.5
    assert_eq!(tracer.trace_ray(&ray, &everything(), 1), Color::new(f(100.), f(100.), f(0.)));
}

#[test]
fn point_light_is_blocked_by_a_sphere_between() {
    let blocker = sphere(vec3(0., 2., 3.), 0.5, (0., 0., 0.), -1, 0.);
    let lit = RayTracer {
        spheres: vec![sphere(vec3(0., 0., 3.), 1., (255., 255., 255.), -1, 0.)],
        lights: vec![Light::Point { intensity: f(1.), position: vec3(0., 4., 3.) }],
    };
    let shadowed = RayTracer {
        spheres: vec![lit.spheres[0], blocker],
        lights: vec![Light::Point { intensity: f(1.), position: vec3(0., 4., 3.) }],
    };
    // the top of the sphere, seen from above
    let at_top = Ray { origin: vec3(0., 1., 3.), direction: vec3(0., 1., 0.) };
    let normal = vec3(0., 1., 0.);
    // light vector (0, 3, 0): cosine 1, so the whole intensity arrives
    assert_eq!(lit.compute_lighting(&at_top, &normal, -1), f(1.));
    assert_eq!(shadowed.compute_lighting(&at_top, &normal, -1), f(0.));
    assert!(shadowed.in_shadow(&shadowed.lights[0], &at_top.origin));
    assert!(!lit.in_shadow(&lit.lights[0], &at_top.origin));
}

#[test]
fn specular_highlight_adds_to_the_diffuse_term() {
    let tracer = RayTracer {
        spheres: vec![],
        lights: vec![Light::Directional { intensity: f(0.5), direction: vec3(0., 0., -2.) }],
    };
    let surface = Ray { origin: vec3(0., 0., 0.), direction: vec3(0., 0., -1.) };
    let normal = vec3(0., 0., -1.);
    // diffuse: 0.5 * 1; specular: the reflected light points at the viewer, 0.5 * 1^10
    assert_eq!(tracer.compute_lighting(&surface, &normal, -1), f(0.5));
    assert_eq!(tracer.compute_lighting(&surface, &normal, 10), f(1.));
}

#[test]
fn reflect_ray_mirrors_about_the_normal() {
    let tracer = RayTracer { spheres: vec![], lights: vec![] };
    assert_eq!(tracer.reflect_ray(&vec3(1., 1., 0.), &vec3(0., 1., 0.)), vec3(-1., 1., 0.));
    assert_eq!(tracer.reflect_ray(&vec3(0., 2., 0.), &vec3(0., 1., 0.)), vec3(0., 2., 0.));
}

#[test]
fn canvas_point_maps_to_viewport_direction() {
    let tracer = RayTracer { spheres: vec![], lights: vec![] };
    let size = Rectangle { w: 4, h: 8 };
    assert_eq!(tracer.canvas_to_viewport(1, -2, &size), vec3(0.25, -0.25, 1.));
}

#[test]
fn render_paints_the_sphere_in_the_middle() {
    let tracer = RayTracer {
        spheres: vec![sphere(vec3(0., 0., 3.), 1., (200., 100., 50.), -1, 0.)],
        lights: vec![Light::Ambient { intensity: f(1.) }],
    };
    let size = Rectangle { w: 8, h: 8 };
    let mut data = vec![7u8; 8 * 8 * 4];
    tracer.render(&size, 3, &mut data);
    assert_eq!(data.len(), 8 * 8 * 4);
    // the canvas point (0, 0) is column 4, row 3
    let middle = 4 * (4 + 8 * 3);
    assert_eq!(&data[middle..middle + 4], &[200, 100, 50, 255]);
    // the corner (-4, -4) is column 0, row 7: the ray (-0.5, -0.5, 1) misses
    let corner = 4 * (0 + 8 * 7);
    assert_eq!(&data[corner..corner + 4], &[0, 0, 0, 255]);
    // every pixel was set: the points run from -4 to 4 on either axis
    for pixel in data.chunks(4) {
        assert_eq!(pixel[3], 255);
    }
}

#[test]
fn render_leaves_alone_what_is_not_a_canvas() {
    let tracer = RayTracer { spheres: vec![], lights: vec![] };
    let mut data = vec![7u8; 16];
    tracer.render(&Rectangle { w: 0, h: 2 }, 3, &mut data);
    assert_eq!(data, vec![7u8; 16]);
    tracer.render(&Rectangle { w: -2, h: 2 }, 3, &mut data);
    assert_eq!(data, vec![7u8; 16]);
}
