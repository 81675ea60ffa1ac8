//! Shaded triangles: a flat colour scaled by a shade that is interpolated
//! between the vertices.
use crate::canvas::{
    color_bytes_spec, data_fits, lemma_put_pixel_pixelwise, on_canvas, pixel_bytes, put_pixel_spec,
};
use crate::color::Color;
use crate::fixed::{lemma_to_int_monotone, Fixed};
use crate::interpolate::{edge_interpolate_spec, interpolate_spec};
use crate::math::Vector2;
use crate::rasterization::{sort_order_spec, Renderer, Setup};
use crate::scene::Triangle;
use vstd::prelude::*;

verus! {

/// The boundaries and shades of the scanlines of a shaded triangle:
/// scanline `y_from + k` runs from `x_left[k]` to `x_right[k]`.
pub ghost struct ShadeTables {
    pub y_from: int,
    pub x_left: Seq<Fixed>,
    pub h_left: Seq<Fixed>,
    pub x_right: Seq<Fixed>,
    pub h_right: Seq<Fixed>,
}

impl Setup {
    /// The pixels after the steps `k..n` of one scanline of a shaded
    /// triangle are drawn: step `j` paints the pixel at `x_from + j` in the
    /// colour scaled by `shades[j]`.
    pub open spec fn shade_span_spec(
        self,
        data: Seq<u8>,
        color: Color,
        y: int,
        x_from: int,
        shades: Seq<Fixed>,
        k: int,
        n: int,
    ) -> Seq<u8>
        decreases n - k,
    {
        if k >= n {
            data
        } else {
            self.shade_span_spec(
                put_pixel_spec(data, self.canvas_size, x_from + k, y, color.scaled_spec(shades[k])),
                color,
                y,
                x_from,
                shades,
                k + 1,
                n,
            )
        }
    }

    /// The pixels after the scanline `y` of a shaded triangle is drawn
    /// between the boundaries `xl` and `xr`, the shade interpolated from
    /// `hl` to `hr`.
    pub open spec fn shade_row_spec(
        self,
        data: Seq<u8>,
        color: Color,
        y: int,
        xl: Fixed,
        hl: Fixed,
        xr: Fixed,
        hr: Fixed,
    ) -> Seq<u8> {
        if xl.to_int_spec() > xr.to_int_spec() {
            data
        } else {
            self.shade_span_spec(
                data,
                color,
                y,
                xl.to_int_spec(),
                interpolate_spec(xl, hl, xr, hr),
                0,
                xr.to_int_spec() - xl.to_int_spec() + 1,
            )
        }
    }

    /// The pixels after the scanlines `k..n` of a shaded triangle are drawn
    /// from the bottom up.
    pub open spec fn shade_rows_spec(
        self,
        data: Seq<u8>,
        color: Color,
        y_from: int,
        x_left: Seq<Fixed>,
        h_left: Seq<Fixed>,
        x_right: Seq<Fixed>,
        h_right: Seq<Fixed>,
        k: int,
        n: int,
    ) -> Seq<u8>
        decreases n - k,
    {
        if k >= n {
            data
        } else {
            self.shade_rows_spec(
                self.shade_row_spec(
                    data,
                    color,
                    y_from + k,
                    x_left[k],
                    h_left[k],
                    x_right[k],
                    h_right[k],
                ),
                color,
                y_from,
                x_left,
                h_left,
                x_right,
                h_right,
                k + 1,
                n,
            )
        }
    }

    /// The boundaries and shades of the scanlines of a triangle: the
    /// vertices are ordered by projected height, boundary and shade are
    /// interpolated along the long edge and along the two short edges, and
    /// the side whose middle sample lies further left becomes the left
    /// boundary.
    #[verifier::opaque]
    pub open spec fn shade_tables_spec(triangle: Triangle, projected: Seq<Vector2>) -> ShadeTables {
        let (i0, i1, i2) = sort_order_spec(
            projected[triangle.indexes[0] as int].y,
            projected[triangle.indexes[1] as int].y,
            projected[triangle.indexes[2] as int].y,
        );
        let p0 = projected[triangle.indexes[i0] as int];
        let p1 = projected[triangle.indexes[i1] as int];
        let p2 = projected[triangle.indexes[i2] as int];
        let (x02, x012) = edge_interpolate_spec(p0.y, p0.x, p1.y, p1.x, p2.y, p2.x);
        let (h02, h012) = edge_interpolate_spec(
            p0.y,
            triangle.intensities[i0],
            p1.y,
            triangle.intensities[i1],
            p2.y,
            triangle.intensities[i2],
        );
        let m = x012.len() / 2;
        if x02[m as int].raw < x012[m as int].raw {
            ShadeTables {
                y_from: p0.y.to_int_spec(),
                x_left: x02,
                h_left: h02,
                x_right: x012,
                h_right: h012,
            }
        } else {
            ShadeTables {
                y_from: p0.y.to_int_spec(),
                x_left: x012,
                h_left: h012,
                x_right: x02,
                h_right: h02,
            }
        }
    }

    /// The pixels after a triangle is drawn in its colour, shaded by the
    /// intensities of its vertices: every scanline from the lowest to the
    /// highest vertex is drawn between the triangle's boundaries, with the
    /// shade interpolated across it.
    pub open spec fn draw_shaded_triangle_spec(
        self,
        data: Seq<u8>,
        triangle: Triangle,
        projected: Seq<Vector2>,
    ) -> Seq<u8> {
        let t = Setup::shade_tables_spec(triangle, projected);
        self.shade_rows_spec(
            data,
            triangle.color,
            t.y_from,
            t.x_left,
            t.h_left,
            t.x_right,
            t.h_right,
            0,
            t.x_left.len() as int,
        )
    }

    /// The shade of a triangle at the pixel `(x, y)`, if it covers the pixel.
    pub open spec fn triangle_shade_spec(triangle: Triangle, projected: Seq<Vector2>, x: int, y: int) -> Option<
        Fixed,
    > {
        let t = Setup::shade_tables_spec(triangle, projected);
        let k = y - t.y_from;
        if 0 <= k < t.x_left.len() && t.x_left[k].to_int_spec() <= x <= t.x_right[k].to_int_spec() {
            Some(
                interpolate_spec(t.x_left[k], t.h_left[k], t.x_right[k], t.h_right[k])[x
                    - t.x_left[k].to_int_spec()],
            )
        } else {
            None
        }
    }
}

impl Renderer {
    /// Draws one scanline of a shaded triangle.
    fn shade_row(&mut self, color: Color, y: i32, xl: Fixed, hl: Fixed, xr: Fixed, hr: Fixed)
        ensures
            final(self).setup() == old(self).setup(),
            final(self).lengths() == old(self).lengths(),
            final(self).depth_buf == old(self).depth_buf,
            final(self).data@ == old(self).setup().shade_row_spec(
                old(self).data@,
                color,
                y as int,
                xl,
                hl,
                xr,
                hr,
            ),
    {
        let x0: i32 = xl.to_int();
        let x1: i32 = xr.to_int();
        if x0 > x1 {
            return ;
        }
        let shades = self.interpolate(xl, hl, xr, hr);
        let n: usize = shades.len();
        let mut k: usize = 0;
        while k < n
            invariant
                k <= n,
                n == shades@.len(),
                n == x1 - x0 + 1,
                self.setup() == old(self).setup(),
                self.lengths() == old(self).lengths(),
                self.depth_buf == old(self).depth_buf,
                old(self).setup().shade_span_spec(
                    self.data@,
                    color,
                    y as int,
                    x0 as int,
                    shades@,
                    k as int,
                    n as int,
                ) == old(self).setup().shade_span_spec(
                    old(self).data@,
                    color,
                    y as int,
                    x0 as int,
                    shades@,
                    0,
                    n as int,
                ),
            decreases n - k,
        {
            let x: i32 = (x0 as i64 + k as i64) as i32;
            self.put_pixels(x, y, color.scaled(shades[k]));
            k = k + 1;
        }
    }

    /// Draws one scanline of a shaded triangle for each entry of the
    /// boundary tables, from `y_from` upward.
    fn shade_rows(
        &mut self,
        color: Color,
        y_from: i32,
        x_left: &Vec<Fixed>,
        h_left: &Vec<Fixed>,
        x_right: &Vec<Fixed>,
        h_right: &Vec<Fixed>,
    )
        requires
            x_left@.len() == h_left@.len() == x_right@.len() == h_right@.len(),
            y_from + x_left@.len() - 1 <= i32::MAX,
        ensures
            final(self).setup() == old(self).setup(),
            final(self).lengths() == old(self).lengths(),
            final(self).depth_buf == old(self).depth_buf,
            final(self).data@ == old(self).setup().shade_rows_spec(
                old(self).data@,
                color,
                y_from as int,
                x_left@,
                h_left@,
                x_right@,
                h_right@,
                0,
                x_left@.len() as int,
            ),
    {
        let n: usize = x_left.len();
        let mut k: usize = 0;
        while k < n
            invariant
                k <= n,
                n == x_left@.len() == h_left@.len() == x_right@.len() == h_right@.len(),
                y_from + n - 1 <= i32::MAX,
                self.setup() == old(self).setup(),
                self.lengths() == old(self).lengths(),
                self.depth_buf == old(self).depth_buf,
                old(self).setup().shade_rows_spec(
                    self.data@,
                    color,
                    y_from as int,
                    x_left@,
                    h_left@,
                    x_right@,
                    h_right@,
                    k as int,
                    n as int,
                ) == old(self).setup().shade_rows_spec(
                    old(self).data@,
                    color,
                    y_from as int,
                    x_left@,
                    h_left@,
                    x_right@,
                    h_right@,
                    0,
                    n as int,
                ),
            decreases n - k,
        {
            let y: i32 = (y_from as i64 + k as i64) as i32;
            self.shade_row(color, y, x_left[k], h_left[k], x_right[k], h_right[k]);
            k = k + 1;
        }
    }

    /// Fills a triangle with its colour, shaded by the intensities of its
    /// vertices. No depth is tested.
    pub fn draw_shaded_triangle(&mut self, triangle: &Triangle, projected: &Vec<Vector2>)
        requires
            triangle.indexes_below(projected@.len() as int),
        ensures
            final(self).setup() == old(self).setup(),
            final(self).lengths() == old(self).lengths(),
            final(self).depth_buf == old(self).depth_buf,
            final(self).data@ == old(self).setup().draw_shaded_triangle_spec(
                old(self).data@,
                *triangle,
                projected@,
            ),
    {
        proof {
            reveal(Setup::shade_tables_spec);
        }
        let sort = self.sort_vertex_indexes(triangle, projected);
        let (i0, i1, i2) = (sort[0], sort[1], sort[2]);
        let p0 = projected[triangle.indexes[i0]];
        let p1 = projected[triangle.indexes[i1]];
        let p2 = projected[triangle.indexes[i2]];
        let (x02, x012) = self.edge_interpolate(p0.y, p0.x, p1.y, p1.x, p2.y, p2.x);
        let (h02, h012) = self.edge_interpolate(
            p0.y,
            triangle.intensities[i0],
            p1.y,
            triangle.intensities[i1],
            p2.y,
            triangle.intensities[i2],
        );
        proof {
            lemma_to_int_monotone(p0.y, p2.y);
        }
        let m: usize = x012.len() / 2;
        let y0: i32 = p0.y.to_int();
        if x02[m].raw < x012[m].raw {
            self.shade_rows(triangle.color, y0, &x02, &h02, &x012, &h012);
        } else {
            self.shade_rows(triangle.color, y0, &x012, &h012, &x02, &h02);
        }
    }

}

/// Drawing part of a scanline of a shaded triangle gives each of its
/// pixels the colour scaled by the pixel's shade, and leaves every other
/// pixel as it was.
pub proof fn lemma_shade_span_pixelwise(
    setup: Setup,
    data: Seq<u8>,
    color: Color,
    y: int,
    x_from: int,
    shades: Seq<Fixed>,
    k: int,
    n: int,
    px: int,
    py: int,
)
    requires
        data_fits(data, setup.canvas_size),
        on_canvas(setup.canvas_size, px, py),
        0 <= k,
    ensures
        data_fits(setup.shade_span_spec(data, color, y, x_from, shades, k, n), setup.canvas_size),
        pixel_bytes(setup.shade_span_spec(data, color, y, x_from, shades, k, n), setup.canvas_size, px, py)
            == if py == y && x_from + k <= px < x_from + n {
            color_bytes_spec(color.scaled_spec(shades[px - x_from]))
        } else {
            pixel_bytes(data, setup.canvas_size, px, py)
        },
    decreases n - k,
{
    if k < n {
        let shaded = color.scaled_spec(shades[k]);
        lemma_put_pixel_pixelwise(data, setup.canvas_size, x_from + k, y, shaded, px, py);
        lemma_shade_span_pixelwise(
            setup,
            put_pixel_spec(data, setup.canvas_size, x_from + k, y, shaded),
            color,
            y,
            x_from,
            shades,
            k + 1,
            n,
            px,
            py,
        );
    }
}

/// What [`lemma_shaded_triangle_pixelwise`] says, of the scanlines `k..n`.
pub proof fn lemma_shade_rows_pixelwise(
    setup: Setup,
    data: Seq<u8>,
    color: Color,
    tables: ShadeTables,
    k: int,
    n: int,
    px: int,
    py: int,
)
    requires
        data_fits(data, setup.canvas_size),
        on_canvas(setup.canvas_size, px, py),
        0 <= k,
    ensures
        data_fits(
            setup.shade_rows_spec(
                data,
                color,
                tables.y_from,
                tables.x_left,
                tables.h_left,
                tables.x_right,
                tables.h_right,
                k,
                n,
            ),
            setup.canvas_size,
        ),
        pixel_bytes(
            setup.shade_rows_spec(
                data,
                color,
                tables.y_from,
                tables.x_left,
                tables.h_left,
                tables.x_right,
                tables.h_right,
                k,
                n,
            ),
            setup.canvas_size,
            px,
            py,
        ) == ({
            let j = py - tables.y_from;
            if k <= j < n && tables.x_left[j].to_int_spec() <= px <= tables.x_right[j].to_int_spec() {
                color_bytes_spec(
                    color.scaled_spec(
                        interpolate_spec(
                            tables.x_left[j],
                            tables.h_left[j],
                            tables.x_right[j],
                            tables.h_right[j],
                        )[px - tables.x_left[j].to_int_spec()],
                    ),
                )
            } else {
                pixel_bytes(data, setup.canvas_size, px, py)
            }
        }),
    decreases n - k,
{
    if k < n {
        let xl = tables.x_left[k];
        let xr = tables.x_right[k];
        let next = setup.shade_row_spec(
            data,
            color,
            tables.y_from + k,
            xl,
            tables.h_left[k],
            xr,
            tables.h_right[k],
        );
        if xl.to_int_spec() <= xr.to_int_spec() {
            lemma_shade_span_pixelwise(
                setup,
                data,
                color,
                tables.y_from + k,
                xl.to_int_spec(),
                interpolate_spec(xl, tables.h_left[k], xr, tables.h_right[k]),
                0,
                xr.to_int_spec() - xl.to_int_spec() + 1,
                px,
                py,
            );
        }
        lemma_shade_rows_pixelwise(setup, next, color, tables, k + 1, n, px, py);
    }
}

/// A shaded triangle gives each pixel that it covers its colour scaled by
/// the shade there, and leaves every other pixel as it was.
pub proof fn lemma_shaded_triangle_pixelwise(
    setup: Setup,
    data: Seq<u8>,
    triangle: Triangle,
    projected: Seq<Vector2>,
    px: int,
    py: int,
)
    requires
        data_fits(data, setup.canvas_size),
        on_canvas(setup.canvas_size, px, py),
    ensures
        data_fits(setup.draw_shaded_triangle_spec(data, triangle, projected), setup.canvas_size),
        pixel_bytes(setup.draw_shaded_triangle_spec(data, triangle, projected), setup.canvas_size, px, py)
            == match Setup::triangle_shade_spec(triangle, projected, px, py) {
            Some(shade) => color_bytes_spec(triangle.color.scaled_spec(shade)),
            None => pixel_bytes(data, setup.canvas_size, px, py),
        },
{
    let t = Setup::shade_tables_spec(triangle, projected);
    lemma_shade_rows_pixelwise(setup, data, triangle.color, t, 0, t.x_left.len() as int, px, py);
}

} // verus!
