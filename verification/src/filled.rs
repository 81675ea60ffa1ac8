//! Filled triangles: back-face culling, edge tables, and scanlines filled
//! with depth testing, per-pixel lighting and perspective-correct texturing.
use crate::canvas::{depth_after, depth_passes, put_pixel_spec};
use crate::color::Color;
use crate::fixed::{lemma_to_int_monotone, Fixed};
use crate::interpolate::{edge_interpolate_spec, Varying};
use crate::math::Vector2;
use crate::matrix::Matrix4;
use crate::rasterization::{
    is_back_facing, sort_order_spec, triangle_normal, vertex_varying, vertex_varying_spec, Renderer,
    Setup, Surface,
};
use crate::scene::{Instance, InstanceView, Light, Texture, Triangle};
use vstd::prelude::*;

verus! {

/// The boundaries and attributes of the scanlines of a triangle: scanline
/// `y_from + k` runs from `x_left[k]` to `x_right[k]`.
pub ghost struct EdgeTables {
    pub y_from: int,
    pub x_left: Seq<Fixed>,
    pub a_left: Seq<Varying>,
    pub x_right: Seq<Fixed>,
    pub a_right: Seq<Varying>,
}

impl Setup {
    /// The colour of the fragment at pixel `(x, y)` with the attributes `a`:
    /// the texel at the perspective-correct texture coordinate, or the flat
    /// colour where there is no texture, times the illumination of the
    /// camera-space point behind the pixel.
    #[verifier::opaque]
    pub open spec fn fragment_color_spec(
        self,
        texture: Option<Texture>,
        flat: Color,
        x: int,
        y: int,
        a: Varying,
    ) -> Color {
        let vertex = self.un_project_vertex_spec(x, y, a.inv_z);
        let intensity = self.compute_illumination_spec(vertex, a.normal);
        let base = match texture {
            Some(t) => t.get_texel_spec(a.uv_z.x.div_spec(a.inv_z), a.uv_z.y.div_spec(a.inv_z)),
            None => flat,
        };
        base.scaled_spec(intensity)
    }

    /// The surface after one fragment is offered: where it passes the depth
    /// test, the depth buffer takes its reciprocal depth and the pixel its
    /// colour; elsewhere nothing changes.
    pub open spec fn shade_fragment_spec(
        self,
        s: Surface,
        texture: Option<Texture>,
        flat: Color,
        x: int,
        y: int,
        a: Varying,
    ) -> Surface {
        if depth_passes(s.depth, self.canvas_size, x, y, a.inv_z) {
            Surface {
                data: put_pixel_spec(
                    s.data,
                    self.canvas_size,
                    x,
                    y,
                    self.fragment_color_spec(texture, flat, x, y, a),
                ),
                depth: depth_after(s.depth, self.canvas_size, x, y, a.inv_z),
            }
        } else {
            s
        }
    }

    /// The surface after the fragments `k..n` of one scanline are offered
    /// from left to right: fragment `j` lies at `x_from + j` and has the
    /// attributes `scan[j]`.
    pub open spec fn fill_span_spec(
        self,
        s: Surface,
        texture: Option<Texture>,
        flat: Color,
        y: int,
        x_from: int,
        scan: Seq<Varying>,
        k: int,
        n: int,
    ) -> Surface
        decreases n - k,
    {
        if k >= n {
            s
        } else {
            self.fill_span_spec(
                self.shade_fragment_spec(s, texture, flat, x_from + k, y, scan[k]),
                texture,
                flat,
                y,
                x_from,
                scan,
                k + 1,
                n,
            )
        }
    }

    /// The surface after the scanline `y` is filled between the left
    /// boundary `xl` and the right boundary `xr`, the attributes
    /// interpolated from `al` to `ar`.
    pub open spec fn fill_row_spec(
        self,
        s: Surface,
        texture: Option<Texture>,
        flat: Color,
        y: int,
        xl: Fixed,
        al: Varying,
        xr: Fixed,
        ar: Varying,
    ) -> Surface {
        if xl.to_int_spec() > xr.to_int_spec() {
            s
        } else {
            self.fill_span_spec(
                s,
                texture,
                flat,
                y,
                xl.to_int_spec(),
                Varying::interpolate_spec(xl, al, xr, ar),
                0,
                xr.to_int_spec() - xl.to_int_spec() + 1,
            )
        }
    }

    /// The surface after the scanlines `k..n` are filled from the bottom up:
    /// scanline `j` lies at `y_from + j` between the `j`-th entries of the
    /// boundary tables.
    pub open spec fn fill_rows_spec(
        self,
        s: Surface,
        texture: Option<Texture>,
        flat: Color,
        y_from: int,
        x_left: Seq<Fixed>,
        a_left: Seq<Varying>,
        x_right: Seq<Fixed>,
        a_right: Seq<Varying>,
        k: int,
        n: int,
    ) -> Surface
        decreases n - k,
    {
        if k >= n {
            s
        } else {
            self.fill_rows_spec(
                self.fill_row_spec(
                    s,
                    texture,
                    flat,
                    y_from + k,
                    x_left[k],
                    a_left[k],
                    x_right[k],
                    a_right[k],
                ),
                texture,
                flat,
                y_from,
                x_left,
                a_left,
                x_right,
                a_right,
                k + 1,
                n,
            )
        }
    }

    /// The transform of the normals of `instance` into camera space.
    pub open spec fn normal_transform_spec(self, instance: InstanceView) -> Matrix4 {
        self.camera.orientation_spec().transpose_spec().mul_spec(instance.orientation_spec())
    }

    /// The boundaries and attributes of the scanlines of a triangle of an
    /// instance in camera space; none for a triangle that faces away. The
    /// vertices are ordered by projected height, the boundaries and
    /// attributes are interpolated along the long edge and along the two
    /// short edges, and the side whose middle sample lies further left
    /// becomes the left boundary.
    #[verifier::opaque]
    pub open spec fn edge_tables_spec(
        self,
        instance: InstanceView,
        triangle: Triangle,
        projected: Seq<Vector2>,
    ) -> Option<EdgeTables> {
        let vertices = instance.model.vertices;
        let ia = triangle.indexes[0] as int;
        let ib = triangle.indexes[1] as int;
        let ic = triangle.indexes[2] as int;
        if is_back_facing(vertices[ia], vertices[ib], vertices[ic]) {
            None
        } else {
            let (i0, i1, i2) = sort_order_spec(projected[ia].y, projected[ib].y, projected[ic].y);
            let a = triangle.indexes[i0] as int;
            let b = triangle.indexes[i1] as int;
            let c = triangle.indexes[i2] as int;
            let (p0, p1, p2) = (projected[a], projected[b], projected[c]);
            let normals = self.normal_transform_spec(instance);
            let a0 = vertex_varying_spec(normals, vertices[a], triangle.normals[i0], triangle.uvs[i0]);
            let a1 = vertex_varying_spec(normals, vertices[b], triangle.normals[i1], triangle.uvs[i1]);
            let a2 = vertex_varying_spec(normals, vertices[c], triangle.normals[i2], triangle.uvs[i2]);
            let (x02, x012) = edge_interpolate_spec(p0.y, p0.x, p1.y, p1.x, p2.y, p2.x);
            let (a02, a012) = Varying::edge_interpolate_spec(p0.y, a0, p1.y, a1, p2.y, a2);
            let m = x02.len() / 2;
            if x02[m as int].raw < x012[m as int].raw {
                Some(
                    EdgeTables {
                        y_from: p0.y.to_int_spec(),
                        x_left: x02,
                        a_left: a02,
                        x_right: x012,
                        a_right: a012,
                    },
                )
            } else {
                Some(
                    EdgeTables {
                        y_from: p0.y.to_int_spec(),
                        x_left: x012,
                        a_left: a012,
                        x_right: x02,
                        a_right: a02,
                    },
                )
            }
        }
    }

    /// The surface after a triangle of an instance in camera space is
    /// filled: nothing changes for a triangle that faces away; else every
    /// scanline from the lowest to the highest vertex is filled between the
    /// triangle's boundaries.
    pub open spec fn draw_filled_triangle_spec(
        self,
        s: Surface,
        instance: InstanceView,
        triangle: Triangle,
        projected: Seq<Vector2>,
    ) -> Surface {
        match self.edge_tables_spec(instance, triangle, projected) {
            None => s,
            Some(t) => self.fill_rows_spec(
                s,
                instance.model.texture,
                triangle.color,
                t.y_from,
                t.x_left,
                t.a_left,
                t.x_right,
                t.a_right,
                0,
                t.x_left.len() as int,
            ),
        }
    }
}

impl Renderer {
    /// Offers one fragment to the surface.
    pub fn shade_fragment(&mut self, texture: &Option<Texture>, flat: Color, x: i32, y: i32, a: &Varying)
        ensures
            final(self).setup() == old(self).setup(),
            final(self).lengths() == old(self).lengths(),
            final(self).surface() == old(self).setup().shade_fragment_spec(
                old(self).surface(),
                *texture,
                flat,
                x as int,
                y as int,
                *a,
            ),
    {
        proof {
            reveal(Setup::fragment_color_spec);
        }
        if self.update_depth_buf_if_closer(x, y, a.inv_z) {
            let vertex = self.un_project_vertex(x, y, a.inv_z);
            let intensity = self.compute_illumination(&vertex, &a.normal);
            let color = match texture {
                Some(t) => t.get_texel(a.uv_z.x.div(a.inv_z), a.uv_z.y.div(a.inv_z)),
                None => flat,
            };
            self.put_pixels(x, y, color.scaled(intensity));
        }
    }

    /// Fills the scanline `y` between two boundary samples.
    pub fn fill_row(
        &mut self,
        texture: &Option<Texture>,
        flat: Color,
        y: i32,
        xl: Fixed,
        al: &Varying,
        xr: Fixed,
        ar: &Varying,
    )
        ensures
            final(self).setup() == old(self).setup(),
            final(self).lengths() == old(self).lengths(),
            final(self).surface() == old(self).setup().fill_row_spec(
                old(self).surface(),
                *texture,
                flat,
                y as int,
                xl,
                *al,
                xr,
                *ar,
            ),
    {
        let x0: i32 = xl.to_int();
        let x1: i32 = xr.to_int();
        if x0 > x1 {
            return ;
        }
        let scan = Varying::interpolate(xl, al, xr, ar);
        let n: usize = scan.len();
        let mut k: usize = 0;
        while k < n
            invariant
                k <= n,
                n == scan@.len(),
                n == x1 - x0 + 1,
                self.setup() == old(self).setup(),
                self.lengths() == old(self).lengths(),
                old(self).setup().fill_span_spec(
                    self.surface(),
                    *texture,
                    flat,
                    y as int,
                    x0 as int,
                    scan@,
                    k as int,
                    n as int,
                ) == old(self).setup().fill_span_spec(
                    old(self).surface(),
                    *texture,
                    flat,
                    y as int,
                    x0 as int,
                    scan@,
                    0,
                    n as int,
                ),
            decreases n - k,
        {
            let x: i32 = (x0 as i64 + k as i64) as i32;
            self.shade_fragment(texture, flat, x, y, &scan[k]);
            k = k + 1;
        }
    }

    /// Fills one scanline for each entry of the boundary tables, from
    /// `y_from` upward.
    fn fill_rows(
        &mut self,
        texture: &Option<Texture>,
        flat: Color,
        y_from: i32,
        x_left: &Vec<Fixed>,
        a_left: &Vec<Varying>,
        x_right: &Vec<Fixed>,
        a_right: &Vec<Varying>,
    )
        requires
            x_left@.len() == a_left@.len() == x_right@.len() == a_right@.len(),
            y_from + x_left@.len() - 1 <= i32::MAX,
        ensures
            final(self).setup() == old(self).setup(),
            final(self).lengths() == old(self).lengths(),
            final(self).surface() == old(self).setup().fill_rows_spec(
                old(self).surface(),
                *texture,
                flat,
                y_from as int,
                x_left@,
                a_left@,
                x_right@,
                a_right@,
                0,
                x_left@.len() as int,
            ),
    {
        let n: usize = x_left.len();
        let mut k: usize = 0;
        while k < n
            invariant
                k <= n,
                n == x_left@.len() == a_left@.len() == x_right@.len() == a_right@.len(),
                y_from + n - 1 <= i32::MAX,
                self.setup() == old(self).setup(),
                self.lengths() == old(self).lengths(),
                old(self).setup().fill_rows_spec(
                    self.surface(),
                    *texture,
                    flat,
                    y_from as int,
                    x_left@,
                    a_left@,
                    x_right@,
                    a_right@,
                    k as int,
                    n as int,
                ) == old(self).setup().fill_rows_spec(
                    old(self).surface(),
                    *texture,
                    flat,
                    y_from as int,
                    x_left@,
                    a_left@,
                    x_right@,
                    a_right@,
                    0,
                    n as int,
                ),
            decreases n - k,
        {
            let y: i32 = (y_from as i64 + k as i64) as i32;
            self.fill_row(texture, flat, y, x_left[k], &a_left[k], x_right[k], &a_right[k]);
            k = k + 1;
        }
    }

    /// Fills a triangle of an instance in camera space, with back-face
    /// culling, depth testing, per-pixel lighting and, where the model has
    /// a texture, perspective-correct texturing.
    pub fn draw_filled_triangle(&mut self, instance: &Instance, triangle: &Triangle, projected: &Vec<Vector2>)
        requires
            triangle.indexes_below(instance.model.vertices@.len() as int),
            triangle.indexes_below(projected@.len() as int),
        ensures
            final(self).setup() == old(self).setup(),
            final(self).lengths() == old(self).lengths(),
            final(self).surface() == old(self).setup().draw_filled_triangle_spec(
                old(self).surface(),
                instance@,
                *triangle,
                projected@,
            ),
    {
        proof {
            reveal(Setup::edge_tables_spec);
        }
        let vertices = &instance.model.vertices;
        let indexes = &triangle.indexes;
        let normal = triangle_normal(
            &vertices[indexes[0]],
            &vertices[indexes[1]],
            &vertices[indexes[2]],
        );
        let vertex_to_camera = vertices[indexes[0]].negated();
        if vertex_to_camera.dot(&normal).raw <= 0 {
            return ;
        }
        let sort = self.sort_vertex_indexes(triangle, projected);
        let (i0, i1, i2) = (sort[0], sort[1], sort[2]);
        let (a, b, c) = (indexes[i0], indexes[i1], indexes[i2]);
        let p0 = projected[a];
        let p1 = projected[b];
        let p2 = projected[c];
        let normals = self.camera.get_orientation().transpose().mul(&instance.get_orientation());
        let a0 = vertex_varying(&normals, &vertices[a], &triangle.normals[i0], &triangle.uvs[i0]);
        let a1 = vertex_varying(&normals, &vertices[b], &triangle.normals[i1], &triangle.uvs[i1]);
        let a2 = vertex_varying(&normals, &vertices[c], &triangle.normals[i2], &triangle.uvs[i2]);
        let (x02, x012) = self.edge_interpolate(p0.y, p0.x, p1.y, p1.x, p2.y, p2.x);
        let (a02, a012) = Varying::edge_interpolate(p0.y, &a0, p1.y, &a1, p2.y, &a2);
        proof {
            lemma_to_int_monotone(p0.y, p2.y);
        }
        let m: usize = x02.len() / 2;
        let y0: i32 = p0.y.to_int();
        if x02[m].raw < x012[m].raw {
            self.fill_rows(&instance.model.texture, triangle.color, y0, &x02, &a02, &x012, &a012);
        } else {
            self.fill_rows(&instance.model.texture, triangle.color, y0, &x012, &a012, &x02, &a02);
        }
    }
}

/// Under a single ambient light every fragment has the flat colour scaled
/// by the light's intensity, whatever its place and attributes; under
/// ambient light of intensity one it has the flat colour itself.
pub proof fn lemma_ambient_light_is_uniform(
    setup: Setup,
    intensity: Fixed,
    flat: Color,
    x: int,
    y: int,
    a: Varying,
)
    requires
        setup.lights == seq![Light::Ambient { intensity }],
    ensures
        setup.fragment_color_spec(None, flat, x, y, a) == flat.scaled_spec(intensity),
        intensity == Fixed::one_spec() ==> setup.fragment_color_spec(None, flat, x, y, a) == flat,
{
    reveal(Setup::fragment_color_spec);
    let vertex = setup.un_project_vertex_spec(x, y, a.inv_z);
    assert(setup.lights.len() == 1);
    assert(setup.lights[0] == Light::Ambient { intensity });
    assert(setup.illumination_upto(vertex, a.normal, 0) == Fixed::zero_spec());
    assert(setup.illumination_upto(vertex, a.normal, 1) == Fixed::zero_spec().add_spec(intensity));
    assert(setup.compute_illumination_spec(vertex, a.normal) == intensity);
    if intensity == Fixed::one_spec() {
        crate::fixed::lemma_mul_one(flat.r);
        crate::fixed::lemma_mul_one(flat.g);
        crate::fixed::lemma_mul_one(flat.b);
    }
}

} // verus!
