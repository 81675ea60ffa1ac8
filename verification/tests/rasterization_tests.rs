use cpu_render::canvas::{new_buffers, put_pixels, update_depth_buf_if_closer, Rectangle};
use cpu_render::color::{channel_byte, Color};
use cpu_render::fixed::Fixed;
use cpu_render::illumination::{cosine, diffuse, illuminate, light_term, reflect, specular};
use cpu_render::interpolate::{count_samples, edge_interpolate, interpolate, slope, Varying};
use cpu_render::math::{Vector2, Vector3};
use cpu_render::matrix::Rotation;
use cpu_render::rasterization::{camera_light, triangle_normal, Renderer};
use cpu_render::scene::{Camera, Instance, Light, Model, Plane, Texture, Triangle};

fn f(x: f64) -> Fixed {
    Fixed::from_raw((x * 65536.0).round() as i64)
}

fn vec2(x: f64, y: f64) -> Vector2 {
    Vector2::new(f(x), f(y))
}

fn vec3(x: f64, y: f64, z: f64) -> Vector3 {
    Vector3::new(f(x), f(y), f(z))
}

fn color(r: f64, g: f64, b: f64) -> Color {
    Color::new(f(r), f(g), f(b))
}

fn camera_at_origin() -> Camera {
    Camera {
        position: vec3(0., 0., 0.),
        rotation: Rotation::identity(),
        planes: vec![Plane { normal: vec3(0., 0., 1.), distance: f(-1.) }],
    }
}

fn renderer(w: i32, h: i32, lights: Vec<Light>) -> Renderer {
    Renderer::new(camera_at_origin(), lights, Rectangle { w, h }, Rectangle { w: 1, h: 1 })
        .expect("the canvas has a positive size")
}

fn flat_triangle(indexes: [usize; 3], c: Color) -> Triangle {
    let n = vec3(0., 0., -1.);
    Triangle::new(indexes, c, [n, n, n], [vec2(0., 0.), vec2(0., 0.), vec2(0., 0.)])
}

fn instance(vertices: Vec<Vector3>, triangles: Vec<Triangle>) -> Instance {
    Instance {
        model: Model {
            vertices,
            triangles,
            bounds_center: vec3(0., 0., 0.),
            bounds_radius: f(2.),
            texture: None,
        },
        scale: f(1.),
        rotation: Rotation::identity(),
        position: vec3(0., 0., 0.),
    }
}

fn pixel(r: &Renderer, cx: i32, cy: i32) -> [u8; 4] {
    let w = r.canvas_size.w;
    let h = r.canvas_size.h;
    let x = (w + 1) / 2 + cx;
    let y = (h + 1) / 2 - cy - 1;
    let o = 4 * (x + w * y) as usize;
    [r.data[o], r.data[o + 1], r.data[o + 2], r.data[o + 3]]
}

#[test]
fn interpolate_gives_one_sample_for_each_whole_step() {
    let values = interpolate(f(0.), f(0.), f(10.), f(5.));
    assert_eq!(values.len(), 11);
    for (k, v) in values.iter().enumerate() {
        assert_eq!(*v, f(0.5 * k as f64));
    }
    assert_eq!(count_samples(f(0.), f(10.)), 11);
    assert_eq!(slope(f(0.), f(0.), f(10.), f(5.)), f(0.5));
}

#[test]
fn interpolate_between_equal_ends_is_the_first_value() {
    assert_eq!(interpolate(f(3.), f(7.), f(3.), f(9.)), vec![f(7.)]);
}

#[test]
fn interpolate_steps_downward_toward_the_second_end() {
    let values = interpolate(f(4.), f(1.), f(0.), f(3.));
    assert_eq!(values, vec![f(1.), f(1.5), f(2.), f(2.5), f(3.)]);
}

#[test]
fn interpolate_has_a_constant_first_difference() {
    let values = interpolate(f(-3.), f(2.), f(4.), f(-1.));
    assert_eq!(values.len(), 8);
    let step = values[1].raw - values[0].raw;
    for k in 1..values.len() {
        assert_eq!(values[k].raw - values[k - 1].raw, step);
    }
    assert_eq!(values[0], f(2.));
}

#[test]
fn interpolate_counts_by_integer_parts() {
    assert_eq!(interpolate(f(0.9), f(0.), f(1.1), f(1.)).len(), 2);
    assert_eq!(interpolate(f(0.2), f(5.), f(0.7), f(1.)), vec![f(5.)]);
}

#[test]
fn edge_tables_have_one_entry_for_each_scanline() {
    let (long, short) = edge_interpolate(f(0.), f(0.), f(2.), f(4.), f(6.), f(0.));
    assert_eq!(long.len(), 7);
    assert_eq!(short.len(), 7);
    assert_eq!(long, vec![f(0.); 7]);
    assert_eq!(short, vec![f(0.), f(2.), f(4.), f(3.), f(2.), f(1.), f(0.)]);
}

#[test]
fn varying_is_interpolated_attribute_by_attribute() {
    let a0 = Varying { inv_z: f(1.), normal: vec3(0., 0., 1.), uv_z: vec2(0., 1.) };
    let a1 = Varying { inv_z: f(0.5), normal: vec3(1., 0., 0.), uv_z: vec2(1., 0.) };
    let values = Varying::interpolate(f(0.), &a0, f(4.), &a1);
    assert_eq!(values.len(), 5);
    assert_eq!(values[0], a0);
    assert_eq!(values[4], a1);
    assert_eq!(values[2], Varying { inv_z: f(0.75), normal: vec3(0.5, 0., 0.5), uv_z: vec2(0.5, 0.5) });
    let inv_z = interpolate(f(0.), f(1.), f(4.), f(0.5));
    for k in 0..5 {
        assert_eq!(values[k].inv_z, inv_z[k]);
    }
    assert_eq!(Varying::slope(f(0.), &a0, f(4.), &a1).inv_z, f(-0.125));
    let (long, short) = Varying::edge_interpolate(f(0.), &a0, f(2.), &a1, f(4.), &a0);
    assert_eq!(long.len(), 5);
    assert_eq!(short.len(), 5);
    assert_eq!(short[2], a1);
    assert_eq!(long[3], a0);
    assert_eq!(a0.plus(&a1).inv_z, f(1.5));
}

#[test]
fn channel_bytes_are_clamped() {
    assert_eq!(channel_byte(f(-3.)), 0);
    assert_eq!(channel_byte(f(0.9)), 0);
    assert_eq!(channel_byte(f(127.9)), 127);
    assert_eq!(channel_byte(f(255.)), 255);
    assert_eq!(channel_byte(f(300.)), 255);
}

#[test]
fn colours_scale_add_and_blend() {
    let c = color(100., 50., 200.);
    assert_eq!(c.scaled(f(0.5)), color(50., 25., 100.));
    assert_eq!(c.plus(&color(1., 2., 3.)), color(101., 52., 203.));
    assert_eq!(c.blend(&color(0., 150., 0.), f(0.5)), color(50., 100., 100.));
    assert_eq!(Color::from_bytes(1, 2, 3), color(1., 2., 3.));
    assert_eq!(Color::black(), color(0., 0., 0.));
}

#[test]
fn pixels_are_addressed_from_the_centre() {
    let size = Rectangle { w: 4, h: 4 };
    let mut data = vec![0u8; 64];
    put_pixels(&mut data, &size, 0, 0, color(10., 20., 30.));
    // column 2, row 1
    let mut expected = vec![0u8; 64];
    expected[24..28].copy_from_slice(&[10, 20, 30, 255]);
    assert_eq!(data, expected);
    put_pixels(&mut data, &size, -2, 1, color(1., 2., 3.));
    expected[0..4].copy_from_slice(&[1, 2, 3, 255]);
    assert_eq!(data, expected);
    put_pixels(&mut data, &size, 1, -2, color(4., 5., 6.));
    expected[60..64].copy_from_slice(&[4, 5, 6, 255]);
    assert_eq!(data, expected);
}

#[test]
fn pixels_off_the_canvas_are_dropped() {
    let size = Rectangle { w: 4, h: 4 };
    let mut data = vec![9u8; 64];
    for (cx, cy) in [(2, 0), (-3, 0), (0, 2), (0, -3), (i32::MAX, i32::MIN), (i32::MIN, i32::MAX)] {
        put_pixels(&mut data, &size, cx, cy, color(1., 2., 3.));
    }
    assert_eq!(data, vec![9u8; 64]);
    // a buffer that is too short for the pixel is left alone too
    let mut short = vec![9u8; 8];
    put_pixels(&mut short, &size, 0, 0, color(1., 2., 3.));
    assert_eq!(short, vec![9u8; 8]);
}

#[test]
fn odd_sizes_round_the_centre_up() {
    let size = Rectangle { w: 5, h: 3 };
    let mut data = vec![0u8; 60];
    put_pixels(&mut data, &size, 0, 0, color(1., 1., 1.));
    // column ceil(2.5) = 3, row ceil(1.5 - 1) = 1
    let o = 4 * (3 + 5 * 1);
    assert_eq!(&data[o..o + 4], &[1, 1, 1, 255]);
    assert_eq!(data.iter().filter(|b| **b != 0).count(), 4);
}

#[test]
fn depth_buffer_keeps_the_nearest() {
    let size = Rectangle { w: 2, h: 2 };
    let mut depth = vec![Fixed::zero(); 4];
    assert!(update_depth_buf_if_closer(&mut depth, &size, 0, 0, f(0.25)));
    // column 1, row 0
    assert_eq!(depth, vec![f(0.), f(0.25), f(0.), f(0.)]);
    assert!(!update_depth_buf_if_closer(&mut depth, &size, 0, 0, f(0.125)));
    assert!(!update_depth_buf_if_closer(&mut depth, &size, 0, 0, f(0.25)));
    assert_eq!(depth, vec![f(0.), f(0.25), f(0.), f(0.)]);
    assert!(update_depth_buf_if_closer(&mut depth, &size, 0, 0, f(0.5)));
    assert_eq!(depth, vec![f(0.), f(0.5), f(0.), f(0.)]);
    assert!(!update_depth_buf_if_closer(&mut depth, &size, 1, 0, f(0.5)));
    assert!(!update_depth_buf_if_closer(&mut depth, &size, 0, 1, f(0.5)));
    assert_eq!(depth, vec![f(0.), f(0.5), f(0.), f(0.)]);
}

#[test]
fn buffers_are_made_for_positive_sizes_only() {
    let (data, depth) = new_buffers(&Rectangle { w: 3, h: 2 }).unwrap();
    assert_eq!(data, vec![0u8; 24]);
    assert_eq!(depth, vec![Fixed::zero(); 6]);
    assert!(new_buffers(&Rectangle { w: 0, h: 2 }).is_none());
    assert!(new_buffers(&Rectangle { w: 2, h: -1 }).is_none());
    assert!(Renderer::new(camera_at_origin(), vec![], Rectangle { w: 0, h: 0 }, Rectangle { w: 1, h: 1 })
        .is_none());
}

#[test]
fn projection_divides_by_depth_and_scales_to_the_canvas() {
    let r = renderer(100, 50, vec![]);
    assert_eq!(r.project_vertex(&vec3(1., 2., 4.)), vec2(25., 25.));
    assert_eq!(r.viewport_to_canvas(f(0.5), f(-0.5)), vec2(50., -25.));
    assert_eq!(r.canvas_to_viewport(f(50.), f(-25.)), vec2(0.5, -0.5));
    // pixel (25, 25) at reciprocal depth 1/4 lies at (1, 2, 4)
    assert_eq!(r.un_project_vertex(25, 25, f(0.25)), vec3(1., 2., 4.));
}

#[test]
fn projection_of_depth_zero_saturates() {
    let r = renderer(100, 50, vec![]);
    let p = r.project_vertex(&vec3(1., -2., 0.));
    assert_eq!(p, Vector2::new(Fixed::max_value(), Fixed::min_value()));
}

#[test]
fn swap_exchanges_two_points() {
    let r = renderer(2, 2, vec![]);
    let mut a = vec2(1., 2.);
    let mut b = vec2(3., 4.);
    r.swap(&mut a, &mut b);
    assert_eq!((a, b), (vec2(3., 4.), vec2(1., 2.)));
}

#[test]
fn vertices_are_ordered_by_projected_height() {
    let r = renderer(2, 2, vec![]);
    let projected = vec![vec2(0., 5.), vec2(0., -1.), vec2(0., 2.)];
    let t = flat_triangle([0, 1, 2], color(0., 0., 0.));
    assert_eq!(r.sort_vertex_indexes(&t, &projected), [1, 2, 0]);
    let t = flat_triangle([2, 0, 1], color(0., 0., 0.));
    assert_eq!(r.sort_vertex_indexes(&t, &projected), [2, 0, 1]);
    let level = vec![vec2(0., 1.), vec2(1., 1.), vec2(2., 1.)];
    assert_eq!(r.sort_vertex_indexes(&flat_triangle([0, 1, 2], color(0., 0., 0.)), &level), [0, 1, 2]);
}

#[test]
fn line_paints_one_pixel_for_each_step_of_the_major_axis() {
    let mut r = renderer(4, 4, vec![]);
    r.draw_line(vec2(1., 0.), vec2(-2., 0.), color(255., 255., 255.));
    for cx in -2..=1 {
        assert_eq!(pixel(&r, cx, 0), [255, 255, 255, 255]);
    }
    assert_eq!(r.data.iter().filter(|b| **b != 0).count(), 16);

    let mut r = renderer(4, 4, vec![]);
    r.draw_line(vec2(-2., -2.), vec2(1., 1.), color(9., 8., 7.));
    for c in -2..=1 {
        assert_eq!(pixel(&r, c, c), [9, 8, 7, 255]);
    }
    assert_eq!(r.data.iter().filter(|b| **b != 0).count(), 16);
}

#[test]
fn steep_line_steps_along_y() {
    let mut r = renderer(8, 8, vec![]);
    r.draw_line(vec2(0., 3.), vec2(1., -4.), color(1., 1., 1.));
    let mut painted = 0;
    for cy in -4..=3 {
        let on_row = (-4..=3).filter(|cx| pixel(&r, *cx, cy) == [1, 1, 1, 255]).count();
        assert_eq!(on_row, 1);
        painted += on_row;
    }
    assert_eq!(painted, 8);
    assert_eq!(pixel(&r, 1, -4), [1, 1, 1, 255]);
    assert_eq!(pixel(&r, 0, 3), [1, 1, 1, 255]);
}

#[test]
fn wireframe_draws_three_sides() {
    let mut r = renderer(8, 8, vec![]);
    let projected = vec![vec2(-3., -3.), vec2(3., -3.), vec2(-3., 3.)];
    let t = flat_triangle([0, 1, 2], color(5., 6., 7.));
    r.draw_wireframe_triangle(&t, &projected);
    for c in -3..=3 {
        assert_eq!(pixel(&r, c, -3), [5, 6, 7, 255]);
        assert_eq!(pixel(&r, -3, c), [5, 6, 7, 255]);
        assert_eq!(pixel(&r, c, -c), [5, 6, 7, 255]);
    }
    assert_eq!(pixel(&r, 0, -1), [0, 0, 0, 0]);
    assert_eq!(r.depth_buf, vec![Fixed::zero(); 64]);
}

#[test]
fn shaded_triangle_follows_the_vertex_intensities() {
    let mut r = renderer(16, 16, vec![]);
    let projected = vec![vec2(-4., -4.), vec2(4., -4.), vec2(-4., 4.)];
    let n = vec3(0., 0., -1.);
    let uv = vec2(0., 0.);
    let full = Triangle::new([0, 1, 2], color(200., 100., 50.), [n, n, n], [uv, uv, uv]);
    r.draw_shaded_triangle(&full, &projected);
    assert_eq!(pixel(&r, -4, -4), [200, 100, 50, 255]);
    assert_eq!(pixel(&r, 0, -4), [200, 100, 50, 255]);
    assert_eq!(pixel(&r, -4, 4), [200, 100, 50, 255]);
    assert_eq!(pixel(&r, 4, 4), [0, 0, 0, 0]);

    let mut r = renderer(16, 16, vec![]);
    let fading = Triangle::new_with_intensity(
        [0, 1, 2],
        color(200., 100., 50.),
        [f(1.), f(0.), f(1.)],
        [n, n, n],
        [uv, uv, uv],
    );
    r.draw_shaded_triangle(&fading, &projected);
    // along the bottom edge the shade falls from 1 at x = -4 to 0 at x = 4
    assert_eq!(pixel(&r, -4, -4), [200, 100, 50, 255]);
    assert_eq!(pixel(&r, 0, -4), [100, 50, 25, 255]);
    assert_eq!(pixel(&r, 4, -4), [0, 0, 0, 255]);
    // the left edge keeps the full shade
    assert_eq!(pixel(&r, -4, 0), [200, 100, 50, 255]);
}

#[test]
fn triangle_under_ambient_light_has_its_flat_colour() {
    let mut r = renderer(100, 100, vec![Light::Ambient { intensity: f(1.) }]);
    let c = color(200., 100., 50.);
    let scene = instance(
        vec![vec3(0., 0., 4.), vec3(0., 1., 4.), vec3(1., 0., 4.)],
        vec![flat_triangle([0, 1, 2], c)],
    );
    r.render_scene(vec![scene]);
    let mut painted = 0;
    for p in r.data.chunks(4) {
        if p != [0, 0, 0, 0] {
            assert_eq!(p, [200, 100, 50, 255]);
            painted += 1;
        }
    }
    // the projected triangle has the corners (0, 0), (0, 25), (25, 0)
    assert_eq!(pixel(&r, 0, 0), [200, 100, 50, 255]);
    assert_eq!(pixel(&r, 5, 5), [200, 100, 50, 255]);
    assert_eq!(pixel(&r, 0, 25), [200, 100, 50, 255]);
    assert_eq!(pixel(&r, 25, 0), [200, 100, 50, 255]);
    assert_eq!(pixel(&r, 12, 13), [200, 100, 50, 255]);
    assert_eq!(pixel(&r, 13, 13), [0, 0, 0, 0]);
    assert_eq!(pixel(&r, -1, 0), [0, 0, 0, 0]);
    assert_eq!(pixel(&r, 0, -1), [0, 0, 0, 0]);
    // one pixel for each whole point of the triangle
    assert_eq!(painted, 26 * 27 / 2);
}

#[test]
fn triangle_that_faces_away_is_not_drawn() {
    let mut r = renderer(100, 100, vec![Light::Ambient { intensity: f(1.) }]);
    let scene = instance(
        vec![vec3(0., 0., 5.), vec3(1., 0., 5.), vec3(0., 1., 5.)],
        vec![flat_triangle([0, 1, 2], color(200., 100., 50.))],
    );
    r.render_scene(vec![scene]);
    assert_eq!(r.data, vec![0u8; 100 * 100 * 4]);
}

fn two_triangles(near_first: bool) -> Renderer {
    let mut r = renderer(100, 100, vec![Light::Ambient { intensity: f(1.) }]);
    // at depth 4 the corners project to (0, 0), (0, 25), (25, 0); at depth
    // 8 the larger triangle projects to (-12.5, -12.5), (-12.5, 37.5),
    // (37.5, -12.5) and so covers the smaller one
    let near = instance(
        vec![vec3(0., 0., 4.), vec3(0., 1., 4.), vec3(1., 0., 4.)],
        vec![flat_triangle([0, 1, 2], color(255., 0., 0.))],
    );
    let far = instance(
        vec![vec3(-1., -1., 8.), vec3(-1., 3., 8.), vec3(3., -1., 8.)],
        vec![flat_triangle([0, 1, 2], color(0., 0., 255.))],
    );
    if near_first {
        r.render_scene(vec![near, far]);
    } else {
        r.render_scene(vec![far, near]);
    }
    r
}

#[test]
fn nearer_triangle_hides_the_farther_in_either_order() {
    let a = two_triangles(true);
    let b = two_triangles(false);
    assert_eq!(a.data, b.data);
    assert_eq!(a.depth_buf, b.depth_buf);
    // where both cover the pixel the near colour shows
    assert_eq!(pixel(&a, 5, 5), [255, 0, 0, 255]);
    assert_eq!(pixel(&a, 0, 0), [255, 0, 0, 255]);
    // where only the far one covers it, its colour shows
    assert_eq!(pixel(&a, -5, -5), [0, 0, 255, 255]);
    assert_eq!(pixel(&a, 15, 10), [255, 0, 0, 255]);
    assert_eq!(pixel(&a, 10, -5), [0, 0, 255, 255]);
    assert_eq!(pixel(&a, 20, 20), [0, 0, 0, 0]);
    // the depth buffer holds reciprocal depths
    let w = 100;
    let at = |cx: i32, cy: i32| ((w + 1) / 2 + cx + w * ((w + 1) / 2 - cy - 1)) as usize;
    assert_eq!(a.depth_buf[at(5, 5)], f(0.25));
    assert_eq!(a.depth_buf[at(-5, -5)], f(0.125));
    assert_eq!(a.depth_buf[at(-40, -40)], Fixed::zero());
}

#[test]
fn instance_behind_the_camera_is_rejected() {
    let mut r = renderer(10, 10, vec![Light::Ambient { intensity: f(1.) }]);
    let mut behind = instance(
        vec![vec3(0., 0., 5.), vec3(0., 1., 5.), vec3(1., 0., 5.)],
        vec![flat_triangle([0, 1, 2], color(200., 100., 50.))],
    );
    behind.position = vec3(0., 0., -20.);
    r.render_scene(vec![behind]);
    assert_eq!(r.data, vec![0u8; 400]);
}

#[test]
fn illumination_sums_the_lights() {
    let lights = vec![
        Light::Ambient { intensity: f(0.25) },
        Light::Directional { intensity: f(0.5), direction: vec3(0., 0., -4.) },
        Light::Point { intensity: f(0.5), position: vec3(0., 3., 0.) },
    ];
    let normal = vec3(0., 0., -1.);
    let view = vec3(0., 0., -1.);
    let point = vec3(0., 0., 0.);
    // ambient 0.25; directional: cosine 1, 0.5; point light at a right angle: 0
    assert_eq!(illuminate(&point, &normal, &view, -1, &lights), f(0.75));
    // with highlights the directional light is mirrored onto the viewer: + 0.5 * 1^5;
    // the point light's mirror image (0, -3, 0) is at a right angle to the view
    assert_eq!(illuminate(&point, &normal, &view, 5, &lights), f(1.25));
    assert_eq!(illuminate(&point, &normal, &view, 5, &vec![]), f(0.));
    assert_eq!(lights[2].intensity(), f(0.5));
}

#[test]
fn light_terms_follow_the_cosines() {
    let n = vec3(0., 0., 2.);
    let l = vec3(0., 3., 3.);
    // cos 45 degrees = 0.7071; 18 / (2 * sqrt(18)): the length rounds down to 4.24263
    let c = cosine(&l, &n);
    assert!((c.raw - f(0.70710678).raw).abs() <= 2, "{:?}", c);
    assert_eq!(diffuse(f(2.), &n, &l), c.mul(f(2.)));
    assert_eq!(diffuse(f(2.), &n, &vec3(0., 3., -3.)), f(0.));
    assert_eq!(reflect(&vec3(1., 0., 1.), &vec3(0., 0., 1.)), vec3(-1., 0., 1.));
    assert_eq!(specular(f(0.5), &vec3(0., 0., 1.), &vec3(0., 0., 1.), &vec3(0., 0., 3.), 7), f(0.5));
    assert_eq!(specular(f(0.5), &vec3(0., 0., 1.), &vec3(0., 0., 1.), &vec3(0., 0., -3.), 7), f(0.));
    assert_eq!(
        light_term(f(0.5), &vec3(0., 0., 1.), &vec3(0., 0., 1.), &vec3(0., 0., 3.), -1),
        f(0.5)
    );
    assert_eq!(
        light_term(f(0.5), &vec3(0., 0., 1.), &vec3(0., 0., 1.), &vec3(0., 0., 3.), 7),
        f(1.)
    );
}

#[test]
fn lights_move_into_camera_space() {
    let camera = Camera {
        position: vec3(1., 2., 3.),
        rotation: Rotation::identity(),
        planes: vec![],
    };
    assert_eq!(
        camera_light(&camera, &Light::Point { intensity: f(1.), position: vec3(1., 2., 5.) }),
        Light::Point { intensity: f(1.), position: vec3(0., 0., 2.) }
    );
    assert_eq!(
        camera_light(&camera, &Light::Directional { intensity: f(1.), direction: vec3(1., 2., 5.) }),
        Light::Directional { intensity: f(1.), direction: vec3(1., 2., 5.) }
    );
    assert_eq!(
        camera_light(&camera, &Light::Ambient { intensity: f(0.5) }),
        Light::Ambient { intensity: f(0.5) }
    );
    // a quarter turn: cosine 0, sine 1
    let turned = Camera {
        position: vec3(0., 0., 0.),
        rotation: Rotation { cos: f(0.), sin: f(1.) },
        planes: vec![],
    };
    assert_eq!(
        camera_light(&turned, &Light::Directional { intensity: f(1.), direction: vec3(1., 0., 0.) }),
        Light::Directional { intensity: f(1.), direction: vec3(0., 0., -1.) }
    );
}

#[test]
fn triangle_normal_is_the_unit_cross_product() {
    assert_eq!(
        triangle_normal(&vec3(0., 0., 5.), &vec3(0., 2., 5.), &vec3(3., 0., 5.)),
        vec3(0., 0., -1.)
    );
}

#[test]
fn texels_are_looked_up_by_normalized_coordinates() {
    // two by two texels: red, green / blue, white
    let texels = vec![
        255, 0, 0, 255, 0, 255, 0, 255, //
        0, 0, 255, 255, 255, 255, 255, 255,
    ];
    let t = Texture::new(texels, 2, 2);
    // floor(u * 2) - 1: u = 0.5 is column 0, u = 1 is column 1
    assert_eq!(t.get_texel(f(0.5), f(0.5)), color(255., 0., 0.));
    assert_eq!(t.get_texel(f(1.), f(0.5)), color(0., 255., 0.));
    assert_eq!(t.get_texel(f(0.5), f(1.)), color(0., 0., 255.));
    assert_eq!(t.get_texel(f(1.), f(1.)), color(255., 255., 255.));
    // coordinates outside the image take the nearest texel
    assert_eq!(t.get_texel(f(0.), f(0.)), color(255., 0., 0.));
    assert_eq!(t.get_texel(f(-3.), f(7.)), color(0., 0., 255.));
    assert_eq!(t.get_texel(f(9.), f(-1.)), color(0., 255., 0.));
    // an image without texels is white
    assert_eq!(Texture::new(vec![], 0, 0).get_texel(f(0.5), f(0.5)), color(255., 255., 255.));
    assert_eq!(Texture::new(vec![1, 2, 3], 2, 2).get_texel(f(1.), f(1.)), color(255., 255., 255.));
}

#[test]
fn textured_triangle_takes_its_colour_from_the_texture() {
    let mut r = renderer(100, 100, vec![Light::Ambient { intensity: f(1.) }]);
    let n = vec3(0., 0., -1.);
    let mut scene = instance(
        vec![vec3(0., 0., 5.), vec3(0., 1., 5.), vec3(1., 0., 5.)],
        vec![Triangle::new(
            [0, 1, 2],
            color(9., 9., 9.),
            [n, n, n],
            [vec2(0.5, 0.5), vec2(0.5, 0.5), vec2(0.5, 0.5)],
        )],
    );
    scene.model.texture = Some(Texture::new(vec![10, 20, 30, 255], 1, 1));
    r.render_scene(vec![scene]);
    assert_eq!(pixel(&r, 5, 5), [10, 20, 30, 255]);
}

#[test]
fn triangle_points_carry_the_intensities() {
    let n = vec3(0., 0., -1.);
    let uv = vec2(0., 0.);
    let t = Triangle::new_with_intensity(
        [2, 0, 1],
        color(1., 2., 3.),
        [f(0.25), f(0.5), f(1.)],
        [n, n, n],
        [uv, uv, uv],
    );
    let projected = vec![vec2(1., 1.), vec2(2., 2.), vec2(3., 3.)];
    let (p0, p1, p2) = t.points(&projected);
    assert_eq!((p0.coord, p0.h), (vec2(3., 3.), f(0.25)));
    assert_eq!((p1.coord, p1.h), (vec2(1., 1.), f(0.5)));
    assert_eq!((p2.coord, p2.h), (vec2(2., 2.), f(1.)));
    let plain = Triangle::new([0, 1, 2], color(1., 2., 3.), [n, n, n], [uv, uv, uv]);
    assert_eq!(plain.intensities, [f(1.), f(1.), f(1.)]);
}

#[test]
fn instance_is_moved_clipped_and_drawn() {
    let mut r = renderer(100, 100, vec![Light::Ambient { intensity: f(1.) }]);
    // the triangle lies about the origin of its model and is placed at depth 4
    let mut placed = instance(
        vec![vec3(0., 0., 0.), vec3(0., 1., 0.), vec3(1., 0., 0.)],
        vec![flat_triangle([0, 1, 2], color(200., 100., 50.))],
    );
    placed.position = vec3(0., 0., 4.);
    r.render_instance(placed);
    assert_eq!(pixel(&r, 5, 5), [200, 100, 50, 255]);
    assert_eq!(pixel(&r, 25, 0), [200, 100, 50, 255]);
    assert_eq!(pixel(&r, 26, 0), [0, 0, 0, 0]);
    assert_eq!(r.data.chunks(4).filter(|p| p[3] != 0).count(), 26 * 27 / 2);
}
