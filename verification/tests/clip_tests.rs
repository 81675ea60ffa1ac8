use cpu_render::canvas::Rectangle;
use cpu_render::clip::{corner, lerp, lerp3, triangle_of};
use cpu_render::color::Color;
use cpu_render::fixed::Fixed;
use cpu_render::math::{Vector2, Vector3};
use cpu_render::matrix::Rotation;
use cpu_render::rasterization::{triangle_normal, Renderer};
use cpu_render::scene::{Camera, Instance, Model, Plane, Triangle};

fn f(x: f64) -> Fixed {
    Fixed::from_raw((x * 65536.0).round() as i64)
}

fn vec2(x: f64, y: f64) -> Vector2 {
    Vector2::new(f(x), f(y))
}

fn vec3(x: f64, y: f64, z: f64) -> Vector3 {
    Vector3::new(f(x), f(y), f(z))
}

fn near_plane() -> Plane {
    Plane { normal: vec3(0., 0., 1.), distance: f(-1.) }
}

fn renderer(planes: Vec<Plane>) -> Renderer {
    let camera = Camera { position: vec3(0., 0., 0.), rotation: Rotation::identity(), planes };
    Renderer::new(camera, vec![], Rectangle { w: 4, h: 4 }, Rectangle { w: 1, h: 1 }).unwrap()
}

fn triangle(indexes: [usize; 3]) -> Triangle {
    Triangle::new_with_intensity(
        indexes,
        Color::new(f(1.), f(2.), f(3.)),
        [f(1.), f(0.5), f(0.)],
        [vec3(1., 0., 0.), vec3(0., 1., 0.), vec3(0., 0., 1.)],
        [vec2(0., 0.), vec2(1., 0.), vec2(0., 1.)],
    )
}

#[test]
fn triangle_inside_the_plane_stays_unchanged() {
    let r = renderer(vec![]);
    let mut vertices = vec![vec3(0., 0., 2.), vec3(1., 0., 3.), vec3(0., 1., 4.)];
    let before = vertices.clone();
    let t = triangle([0, 1, 2]);
    let out = r.clip_triangle(&t, &mut vertices, &near_plane());
    assert_eq!(out.len(), 1);
    assert_eq!(out[0], t);
    assert_eq!(vertices, before);
}

#[test]
fn triangle_outside_the_plane_leaves_nothing() {
    let r = renderer(vec![]);
    let mut vertices = vec![vec3(0., 0., 0.5), vec3(1., 0., -3.), vec3(0., 1., 1.)];
    let before = vertices.clone();
    let out = r.clip_triangle(&triangle([0, 1, 2]), &mut vertices, &near_plane());
    assert!(out.is_empty());
    assert_eq!(vertices, before);
}

#[test]
fn one_corner_inside_leaves_one_triangle() {
    let r = renderer(vec![]);
    // only vertex 1 lies beyond z = 1
    let mut vertices = vec![vec3(0., 0., 0.), vec3(4., 0., 2.), vec3(0., 4., 0.)];
    let t = triangle([0, 1, 2]);
    let out = r.clip_triangle(&t, &mut vertices, &near_plane());
    assert_eq!(out.len(), 1);
    assert_eq!(vertices.len(), 5);
    // the edges from vertex 1 to vertices 2 and 0 cross the plane half-way
    assert_eq!(vertices[3], vec3(2., 2., 1.));
    assert_eq!(vertices[4], vec3(2., 0., 1.));
    assert_eq!(out[0].indexes, [1, 3, 4]);
    assert_eq!(out[0].color, t.color);
    assert_eq!(out[0].intensities, [f(0.5), f(0.25), f(0.75)]);
    assert_eq!(out[0].normals, [vec3(0., 1., 0.), vec3(0., 0.5, 0.5), vec3(0.5, 0.5, 0.)]);
    assert_eq!(out[0].uvs, [vec2(1., 0.), vec2(0.5, 0.5), vec2(0.5, 0.)]);
    // the corners keep their sense of rotation
    assert_eq!(
        triangle_normal(&vertices[1], &vertices[3], &vertices[4]),
        triangle_normal(&vertices[0], &vertices[1], &vertices[2])
    );
}

#[test]
fn two_corners_inside_leave_two_triangles() {
    let r = renderer(vec![]);
    // only vertex 2 lies before z = 1
    let mut vertices = vec![vec3(0., 0., 2.), vec3(4., 0., 2.), vec3(0., 4., 0.)];
    let t = triangle([0, 1, 2]);
    let out = r.clip_triangle(&t, &mut vertices, &near_plane());
    assert_eq!(out.len(), 2);
    assert_eq!(vertices.len(), 5);
    assert_eq!(vertices[3], vec3(0., 2., 1.));
    assert_eq!(vertices[4], vec3(2., 2., 1.));
    assert_eq!(out[0].indexes, [0, 1, 3]);
    assert_eq!(out[1].indexes, [3, 1, 4]);
    assert_eq!(out[1].intensities, [f(0.5), f(0.5), f(0.25)]);
    let whole = triangle_normal(&vertices[0], &vertices[1], &vertices[2]);
    for piece in out.iter() {
        let [a, b, c] = piece.indexes;
        assert_eq!(triangle_normal(&vertices[a], &vertices[b], &vertices[c]), whole);
    }
    // twice the areas: the whole is 4 * sqrt(20), the pieces make up three quarters of it
    let area = |a: usize, b: usize, c: usize| {
        vertices[b].minus(&vertices[a]).cross(&vertices[c].minus(&vertices[a])).norm().raw as f64 / 65536.
    };
    let pieces = area(0, 1, 3) + area(3, 1, 4);
    assert!((pieces - 0.75 * area(0, 1, 2)).abs() < 0.001);
}

#[test]
fn every_rotation_of_the_corners_is_cut_alike() {
    let r = renderer(vec![]);
    for (indexes, one_in) in [([0, 1, 2], 1), ([1, 2, 0], 0), ([2, 0, 1], 2)] {
        let mut vertices = vec![vec3(0., 0., 0.), vec3(4., 0., 2.), vec3(0., 4., 0.)];
        let t = triangle(indexes);
        let out = r.clip_triangle(&t, &mut vertices, &near_plane());
        assert_eq!(out.len(), 1);
        assert_eq!(out[0].indexes[0], 1);
        assert_eq!(out[0].intensities[0], t.intensities[one_in]);
        for v in &vertices[3..] {
            assert_eq!(v.z, f(1.));
        }
    }
    for indexes in [[0, 1, 2], [1, 2, 0], [2, 0, 1]] {
        let mut vertices = vec![vec3(0., 0., 2.), vec3(4., 0., 2.), vec3(0., 4., 0.)];
        let out = r.clip_triangle(&triangle(indexes), &mut vertices, &near_plane());
        assert_eq!(out.len(), 2);
        assert_eq!(out[0].indexes, [0, 1, 3]);
        assert_eq!(out[1].indexes, [3, 1, 4]);
    }
}

#[test]
fn signed_distance_is_positive_inside() {
    let r = renderer(vec![]);
    let plane = Plane { normal: vec3(0., 0.5, 0.5), distance: f(-1.) };
    assert_eq!(r.signed_distance(&plane, &vec3(9., 2., 4.)), f(2.));
    assert_eq!(plane.signed_distance(&vec3(9., 0., 0.)), f(-1.));
}

#[test]
fn a_list_is_clipped_triangle_by_triangle() {
    let r = renderer(vec![]);
    let mut vertices = vec![
        vec3(0., 0., 2.),
        vec3(4., 0., 2.),
        vec3(0., 4., 0.),
        vec3(0., 0., 0.),
        vec3(0., 4., 3.),
    ];
    let triangles = vec![triangle([0, 1, 2]), triangle([3, 2, 3]), triangle([0, 1, 4])];
    let out = r.clip_at_plane(&mut vertices, &triangles, &near_plane());
    assert_eq!(out.len(), 3);
    assert_eq!(vertices.len(), 7);
    assert_eq!(out[0].indexes, [0, 1, 5]);
    assert_eq!(out[1].indexes, [5, 1, 6]);
    assert_eq!(out[2], triangles[2]);
}

fn cube_side() -> Instance {
    Instance {
        model: Model {
            vertices: vec![vec3(-1., -1., 0.), vec3(1., -1., 0.), vec3(1., 1., 0.), vec3(-1., 1., 0.)],
            triangles: vec![triangle([0, 1, 2]), triangle([0, 2, 3])],
            bounds_center: vec3(0., 0., 0.),
            bounds_radius: f(1.5),
            texture: None,
        },
        scale: f(2.),
        rotation: Rotation::identity(),
        position: vec3(0., 0., 10.),
    }
}

fn frustum() -> Vec<Plane> {
    vec![
        near_plane(),
        Plane { normal: vec3(0.5, 0., 0.5), distance: f(0.) },
        Plane { normal: vec3(-0.5, 0., 0.5), distance: f(0.) },
        Plane { normal: vec3(0., -0.5, 0.5), distance: f(0.) },
        Plane { normal: vec3(0., 0.5, 0.5), distance: f(0.) },
    ]
}

#[test]
fn instance_inside_the_frustum_is_moved_into_camera_space() {
    let r = renderer(frustum());
    let instance = cube_side();
    let transform = r.camera.get_matrix().mul(&instance.transform());
    let clipped = r.transform_and_clip(instance, transform).expect("the instance is in view");
    assert_eq!(
        clipped.model.vertices,
        vec![vec3(-2., -2., 10.), vec3(2., -2., 10.), vec3(2., 2., 10.), vec3(-2., 2., 10.)]
    );
    assert_eq!(clipped.model.triangles.len(), 2);
    assert_eq!(clipped.model.triangles[0], triangle([0, 1, 2]));
    assert_eq!(clipped.model.triangles[1], triangle([0, 2, 3]));
    assert_eq!(clipped.model.bounds_center, vec3(0., 0., 10.));
    assert_eq!(clipped.model.bounds_radius, f(3.));
    assert_eq!(clipped.scale, f(1.));
    assert_eq!(clipped.rotation, Rotation::identity());
    assert_eq!(clipped.position, vec3(0., 0., 0.));
    assert!(clipped.model.texture.is_none());
}

#[test]
fn instance_whose_sphere_is_out_of_view_is_rejected() {
    let r = renderer(frustum());
    for position in [vec3(0., 0., -4.), vec3(30., 0., 10.), vec3(-30., 0., 10.), vec3(0., 30., 10.)] {
        let mut instance = cube_side();
        instance.position = position;
        let transform = r.camera.get_matrix().mul(&instance.transform());
        assert!(r.transform_and_clip(instance, transform).is_none());
    }
    // a sphere that reaches into view is kept, though no triangle is left of it
    let mut instance = cube_side();
    instance.position = vec3(0., 0., -1.);
    let transform = r.camera.get_matrix().mul(&instance.transform());
    let clipped = r.transform_and_clip(instance, transform).unwrap();
    assert!(clipped.model.triangles.is_empty());
    assert_eq!(clipped.model.vertices.len(), 4);
}

#[test]
fn instance_across_a_plane_is_cut_at_every_plane_in_turn() {
    let r = renderer(frustum());
    let mut instance = cube_side();
    // the right half of the square lies beyond the right plane x = z
    instance.position = vec3(10., 0., 10.);
    let transform = r.camera.get_matrix().mul(&instance.transform());
    let clipped = r.transform_and_clip(instance, transform).unwrap();
    assert_eq!(clipped.model.triangles.len(), 3);
    assert_eq!(clipped.model.vertices.len(), 8);
    for t in clipped.model.triangles.iter() {
        for i in t.indexes {
            let v = clipped.model.vertices[i];
            for plane in frustum() {
                assert!(plane.signed_distance(&v).raw >= 0, "{:?} lies outside {:?}", v, plane);
            }
        }
    }
}

#[test]
fn corners_and_triangles_convert_back_and_forth() {
    let t = triangle([4, 5, 6]);
    let (a, b, c) = (corner(&t, 0), corner(&t, 1), corner(&t, 2));
    assert_eq!(a.index, 4);
    assert_eq!(b.intensity, f(0.5));
    assert_eq!(c.normal, vec3(0., 0., 1.));
    assert_eq!(triangle_of(t.color, &a, &b, &c), t);
    assert_eq!(triangle_of(t.color, &b, &c, &a).indexes, [5, 6, 4]);
    assert_eq!(lerp(f(2.), f(6.), f(0.25)), f(3.));
    assert_eq!(lerp3(&vec3(0., 0., 0.), &vec3(4., -4., 8.), f(0.5)), vec3(2., -2., 4.));
}

#[test]
fn rounded_crossing_points_may_lie_a_unit_inside_the_next_plane() {
    // The triangle lies wholly outside the second plane, yet not wholly
    // inside the first: the points where the first plane cuts it are
    // rounded, and one of them comes to lie a unit inside the second plane.
    let r = renderer(vec![]);
    let first = Plane { normal: vec3(1., 0., 0.), distance: f(0.) };
    let second = Plane { normal: vec3(0.3, 0.7, 0.1), distance: f(0.) };
    let raw = |x: i64, y: i64, z: i64| Vector3::new(Fixed::from_raw(x), Fixed::from_raw(y), Fixed::from_raw(z));
    let mut vertices = vec![
        raw(-477896, 347202, -996640),
        raw(775978, -50194, -1976480),
        raw(680248, 609240, -6305036),
    ];
    for v in vertices.iter() {
        assert!(second.signed_distance(v).raw <= 0);
    }
    let whole = vec![triangle([0, 1, 2])];
    assert!(r.clip_at_plane(&mut vertices.clone(), &whole, &second).is_empty());
    let pieces = r.clip_at_plane(&mut vertices, &whole, &first);
    assert_eq!(pieces.len(), 2);
    let left = r.clip_at_plane(&mut vertices, &pieces, &second);
    assert_eq!(left.len(), 1);
    for i in left[0].indexes {
        assert!(second.signed_distance(&vertices[i]).raw.abs() <= 1);
    }
}
