use cpu_render::color::Color;
use cpu_render::fixed::Fixed;
use cpu_render::math::{Vector2, Vector3};
use cpu_render::matrix::{Matrix4, Rotation, Vector4};
use cpu_render::scene::{Camera, Instance, Light, Model, Plane, Triangle};
use cpu_render::section::Section;

fn f(x: f64) -> Fixed {
    Fixed::from_raw((x * 65536.0).round() as i64)
}

fn vec2(x: f64, y: f64) -> Vector2 {
    Vector2::new(f(x), f(y))
}

fn vec3(x: f64, y: f64, z: f64) -> Vector3 {
    Vector3::new(f(x), f(y), f(z))
}

fn triangle(indexes: [usize; 3]) -> Triangle {
    let n = vec3(0., 0., 1.);
    Triangle::new(indexes, Color::new(f(1.), f(2.), f(3.)), [n, n, n], [vec2(0., 0.); 3])
}

fn square() -> Model {
    Model {
        vertices: vec![vec3(-1., -1., 0.), vec3(1., -1., 0.), vec3(1., 1., 0.), vec3(-1., 1., 0.)],
        triangles: vec![triangle([0, 1, 2]), triangle([0, 2, 3])],
        bounds_center: vec3(0., 0., 0.),
        bounds_radius: f(1.5),
        texture: None,
    }
}

#[test]
fn lights_and_planes_report_their_parts() {
    assert_eq!(Light::Ambient { intensity: f(0.25) }.intensity(), f(0.25));
    assert_eq!(Light::Point { intensity: f(0.5), position: vec3(1., 2., 3.) }.intensity(), f(0.5));
    assert_eq!(Light::Directional { intensity: f(0.75), direction: vec3(1., 2., 3.) }.intensity(), f(0.75));
    let plane = Plane { normal: vec3(0., 0., 1.), distance: f(-1.) };
    assert_eq!(plane.signed_distance(&vec3(5., 5., 3.)), f(2.));
}

#[test]
fn camera_matrix_undoes_the_camera_placement() {
    let camera = Camera { position: vec3(1., 2., 3.), rotation: Rotation::identity(), planes: vec![] };
    assert_eq!(camera.get_orientation(), Matrix4::identity());
    assert_eq!(camera.get_matrix().transform_point(&vec3(1., 2., 3.)), vec3(0., 0., 0.));
    assert_eq!(camera.get_matrix().transform_point(&vec3(2., 2., 5.)), vec3(1., 0., 2.));
    // a camera turned by a quarter sees the world turned back
    let turned = Camera {
        position: vec3(0., 0., 0.),
        rotation: Rotation { cos: f(0.), sin: f(1.) },
        planes: vec![],
    };
    assert_eq!(turned.get_orientation().transform_point(&vec3(0., 0., 1.)), vec3(-1., 0., 0.));
    assert_eq!(turned.get_matrix().transform_point(&vec3(-1., 0., 0.)), vec3(0., 0., 1.));
}

#[test]
fn instance_transform_scales_then_turns_then_moves() {
    let instance = Instance {
        model: Model {
            vertices: vec![],
            triangles: vec![],
            bounds_center: vec3(0., 0., 0.),
            bounds_radius: f(1.),
            texture: None,
        },
        scale: f(2.),
        rotation: Rotation { cos: f(0.), sin: f(1.) },
        position: vec3(10., 20., 30.),
    };
    // (1, 1, 0) doubled is (2, 2, 0), turned by a quarter (0, 2, 2), moved (10, 22, 32)
    assert_eq!(instance.transform().transform_point(&vec3(1., 1., 0.)), vec3(10., 22., 32.));
    assert_eq!(instance.get_orientation().transform_point(&vec3(1., 0., 0.)), vec3(0., 0., 1.));
}

#[test]
fn matrices_multiply_rows_by_columns() {
    let t = Matrix4::translation(&vec3(1., 2., 3.));
    let s = Matrix4::scaling(f(2.));
    assert_eq!(t.mul(&s).transform_point(&vec3(1., 1., 1.)), vec3(3., 4., 5.));
    assert_eq!(s.mul(&t).transform_point(&vec3(1., 1., 1.)), vec3(4., 6., 8.));
    assert_eq!(t.mul(&Matrix4::identity()), t);
    assert_eq!(Matrix4::identity().mul(&t), t);
    assert_eq!(t.transpose().transpose(), t);
    assert_eq!(t.transpose().r3, Vector4::new(f(1.), f(2.), f(3.), f(1.)));
    let r = Matrix4::rotation_y(&Rotation { cos: f(0.), sin: f(1.) });
    assert_eq!(r.transform_point(&vec3(0., 0., 1.)), vec3(1., 0., 0.));
    assert_eq!(r.apply(&Vector4::new(f(1.), f(5.), f(0.), f(7.))), Vector4::new(f(0.), f(5.), f(-1.), f(7.)));
    assert_eq!(Vector4::point(&vec3(1., 2., 3.)), Vector4::new(f(1.), f(2.), f(3.), f(1.)));
    assert_eq!(Vector4::point(&vec3(1., 2., 3.)).xyz(), vec3(1., 2., 3.));
    assert_eq!(
        Vector4::new(f(1.), f(2.), f(3.), f(4.)).dot(&Vector4::new(f(4.), f(3.), f(2.), f(1.))),
        f(20.)
    );
}

#[test]
fn section_is_a_plain_marker() {
    assert_eq!(Section, Section);
}

#[test]
fn sphere_model_has_rings_of_vertices_and_two_triangles_a_cell() {
    // four slices: the directions of 0, 90, 180 and 270 degrees
    let ring = vec![
        Rotation { cos: f(1.), sin: f(0.) },
        Rotation { cos: f(0.), sin: f(1.) },
        Rotation { cos: f(-1.), sin: f(0.) },
        Rotation { cos: f(0.), sin: f(-1.) },
    ];
    let green = Color::new(f(0.), f(255.), f(0.));
    let model = Model::generate_sphere(&ring, green);
    assert_eq!(model.vertices.len(), 5 * 4);
    assert_eq!(model.triangles.len(), 2 * 4 * 4);
    assert!(model.has_valid_indexes());
    assert!(model.texture.is_none());
    assert_eq!(model.bounds_center, vec3(0., 0., 0.));
    assert_eq!(model.bounds_radius, f(1.));
    // the rings lie at the heights -1, -0.5, 0, 0.5, 1
    for d in 0..5 {
        for i in 0..4 {
            assert_eq!(model.vertices[d * 4 + i].y, f(-1. + 0.5 * d as f64));
        }
    }
    // the middle ring has the radius one, the poles have none
    assert_eq!(&model.vertices[8..12], &[vec3(1., 0., 0.), vec3(0., 0., 1.), vec3(-1., 0., 0.), vec3(0., 0., -1.)]);
    assert_eq!(&model.vertices[0..4], &[vec3(0., -1., 0.); 4]);
    // sqrt(1 - 0.25) = 0.8660254, rounded down
    assert_eq!(model.vertices[4], Vector3::new(Fixed::from_raw(56755), f(-0.5), f(0.)));
    // the cell of ring 1, slice 3 wraps around to slice 0
    assert_eq!(model.triangles[2 * (4 + 3)].indexes, [7, 8, 4]);
    assert_eq!(model.triangles[2 * (4 + 3) + 1].indexes, [7, 11, 8]);
    assert_eq!(model.triangles[0].indexes, [0, 5, 1]);
    assert_eq!(model.triangles[1].indexes, [0, 4, 5]);
    for t in model.triangles.iter() {
        assert_eq!(t.color, green);
        assert_eq!(t.intensities, [f(1.), f(1.), f(1.)]);
        assert_eq!(t.uvs, [vec2(0., 0.); 3]);
        for k in 0..3 {
            assert_eq!(t.normals[k], model.vertices[t.indexes[k]]);
        }
    }
    // no slices, no sphere
    let empty = Model::generate_sphere(&vec![], green);
    assert!(empty.vertices.is_empty() && empty.triangles.is_empty());
}

#[test]
fn model_with_a_stray_index_is_not_valid() {
    let mut model = square();
    assert!(model.has_valid_indexes());
    model.triangles.push(triangle([0, 4, 1]));
    assert!(!model.has_valid_indexes());
}
