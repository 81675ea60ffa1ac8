//! Line drawing: one pixel for each whole step along the axis on which the
//! endpoints lie further apart.
use crate::canvas::put_pixel_spec;
use crate::color::Color;
use crate::fixed::{lemma_to_int_monotone, Fixed};
use crate::interpolate::{interpolate_spec, sample_count};
use crate::math::Vector2;
use crate::rasterization::{Renderer, Setup};
use crate::scene::Triangle;
use vstd::prelude::*;

verus! {

impl Setup {
    /// The pixels after the first `n - k` steps of a line are drawn, from
    /// step `k` on: step `j` paints the pixel whose major coordinate is
    /// `base + j` and whose minor coordinate is the integer part of `minor[j]`.
    pub open spec fn plot_run_spec(
        self,
        data: Seq<u8>,
        color: Color,
        x_major: bool,
        base: int,
        minor: Seq<Fixed>,
        k: int,
        n: int,
    ) -> Seq<u8>
        decreases n - k,
    {
        if k >= n {
            data
        } else {
            let m = minor[k].to_int_spec();
            let next = if x_major {
                put_pixel_spec(data, self.canvas_size, base + k, m, color)
            } else {
                put_pixel_spec(data, self.canvas_size, m, base + k, color)
            };
            self.plot_run_spec(next, color, x_major, base, minor, k + 1, n)
        }
    }

    /// The pixels after the line from `p0` to `p1` is drawn: one pixel for
    /// each whole step along the axis on which the endpoints lie further apart.
    pub open spec fn draw_line_spec(self, data: Seq<u8>, p0: Vector2, p1: Vector2, color: Color) -> Seq<
        u8,
    > {
        let x_major = p1.x.sub_spec(p0.x).abs_spec().raw > p1.y.sub_spec(p0.y).abs_spec().raw;
        if x_major {
            let (a, b) = if p0.x.raw > p1.x.raw {
                (p1, p0)
            } else {
                (p0, p1)
            };
            self.plot_run_spec(
                data,
                color,
                true,
                a.x.to_int_spec(),
                interpolate_spec(a.x, a.y, b.x, b.y),
                0,
                sample_count(a.x, b.x),
            )
        } else {
            let (a, b) = if p0.y.raw > p1.y.raw {
                (p1, p0)
            } else {
                (p0, p1)
            };
            self.plot_run_spec(
                data,
                color,
                false,
                a.y.to_int_spec(),
                interpolate_spec(a.y, a.x, b.y, b.x),
                0,
                sample_count(a.y, b.y),
            )
        }
    }

    /// The pixels after the three sides of the triangle are drawn.
    pub open spec fn draw_wireframe_triangle_spec(
        self,
        data: Seq<u8>,
        triangle: Triangle,
        projected: Seq<Vector2>,
    ) -> Seq<u8> {
        let p0 = projected[triangle.indexes[0] as int];
        let p1 = projected[triangle.indexes[1] as int];
        let p2 = projected[triangle.indexes[2] as int];
        let d1 = self.draw_line_spec(data, p0, p1, triangle.color);
        let d2 = self.draw_line_spec(d1, p0, p2, triangle.color);
        self.draw_line_spec(d2, p2, p1, triangle.color)
    }

}

impl Renderer {
    /// Draws the steps `k..n` of a line whose samples of the minor
    /// coordinate are `minor`.
    fn plot_run(&mut self, color: Color, x_major: bool, base: i32, minor: &Vec<Fixed>)
        requires
            base + minor@.len() - 1 <= i32::MAX,
        ensures
            final(self).setup() == old(self).setup(),
            final(self).lengths() == old(self).lengths(),
            final(self).depth_buf == old(self).depth_buf,
            final(self).data@ == old(self).setup().plot_run_spec(
                old(self).data@,
                color,
                x_major,
                base as int,
                minor@,
                0,
                minor@.len() as int,
            ),
    {
        let n: usize = minor.len();
        let mut k: usize = 0;
        while k < n
            invariant
                k <= n,
                n == minor@.len(),
                base + n - 1 <= i32::MAX,
                self.setup() == old(self).setup(),
                self.lengths() == old(self).lengths(),
                self.depth_buf == old(self).depth_buf,
                old(self).setup().plot_run_spec(self.data@, color, x_major, base as int, minor@, k as int, n as int)
                    == old(self).setup().plot_run_spec(
                    old(self).data@,
                    color,
                    x_major,
                    base as int,
                    minor@,
                    0,
                    n as int,
                ),
            decreases n - k,
        {
            let major: i32 = (base as i64 + k as i64) as i32;
            let m: i32 = minor[k].to_int();
            if x_major {
                self.put_pixels(major, m, color);
            } else {
                self.put_pixels(m, major, color);
            }
            k = k + 1;
        }
    }

    /// Draws the line from `p0` to `p1`: one pixel for each whole step along
    /// the axis on which the endpoints lie further apart, the other
    /// coordinate interpolated.
    pub fn draw_line(&mut self, p0: Vector2, p1: Vector2, color: Color)
        ensures
            final(self).setup() == old(self).setup(),
            final(self).lengths() == old(self).lengths(),
            final(self).depth_buf == old(self).depth_buf,
            final(self).data@ == old(self).setup().draw_line_spec(old(self).data@, p0, p1, color),
    {
        let mut p0 = p0;
        let mut p1 = p1;
        if p1.x.sub(p0.x).abs().raw > p1.y.sub(p0.y).abs().raw {
            if p0.x.raw > p1.x.raw {
                let t = p0;
                p0 = p1;
                p1 = t;
            }
            let ys = self.interpolate(p0.x, p0.y, p1.x, p1.y);
            proof {
                lemma_to_int_monotone(p0.x, p1.x);
            }
            self.plot_run(color, true, p0.x.to_int(), &ys);
        } else {
            if p0.y.raw > p1.y.raw {
                let t = p0;
                p0 = p1;
                p1 = t;
            }
            let xs = self.interpolate(p0.y, p0.x, p1.y, p1.x);
            proof {
                lemma_to_int_monotone(p0.y, p1.y);
            }
            self.plot_run(color, false, p0.y.to_int(), &xs);
        }
    }

    /// Draws the three sides of a triangle in its colour.
    pub fn draw_wireframe_triangle(&mut self, triangle: &Triangle, projected: &Vec<Vector2>)
        requires
            triangle.indexes_below(projected@.len() as int),
        ensures
            final(self).setup() == old(self).setup(),
            final(self).lengths() == old(self).lengths(),
            final(self).depth_buf == old(self).depth_buf,
            final(self).data@ == old(self).setup().draw_wireframe_triangle_spec(
                old(self).data@,
                *triangle,
                projected@,
            ),
    {
        let (p0, p1, p2) = triangle.points(projected);
        let color = triangle.color;
        self.draw_line(p0.coord, p1.coord, color);
        self.draw_line(p0.coord, p2.coord, color);
        self.draw_line(p2.coord, p1.coord, color);
    }
}

impl Setup {
    /// Whether a run of line steps paints the pixel `(x, y)`: one of its
    /// steps `k..n` lands there.
    pub open spec fn run_covers_spec(
        x_major: bool,
        base: int,
        minor: Seq<Fixed>,
        k: int,
        n: int,
        x: int,
        y: int,
    ) -> bool {
        let j = if x_major {
            x - base
        } else {
            y - base
        };
        k <= j < n && minor[j].to_int_spec() == if x_major {
            y
        } else {
            x
        }
    }

    /// Whether the line from `p0` to `p1` paints the pixel `(x, y)`.
    pub open spec fn line_covers_spec(p0: Vector2, p1: Vector2, x: int, y: int) -> bool {
        if p1.x.sub_spec(p0.x).abs_spec().raw > p1.y.sub_spec(p0.y).abs_spec().raw {
            let (a, b) = if p0.x.raw > p1.x.raw {
                (p1, p0)
            } else {
                (p0, p1)
            };
            Setup::run_covers_spec(
                true,
                a.x.to_int_spec(),
                interpolate_spec(a.x, a.y, b.x, b.y),
                0,
                sample_count(a.x, b.x),
                x,
                y,
            )
        } else {
            let (a, b) = if p0.y.raw > p1.y.raw {
                (p1, p0)
            } else {
                (p0, p1)
            };
            Setup::run_covers_spec(
                false,
                a.y.to_int_spec(),
                interpolate_spec(a.y, a.x, b.y, b.x),
                0,
                sample_count(a.y, b.y),
                x,
                y,
            )
        }
    }
}

/// A run of line steps gives the colour to each pixel that one of its steps
/// lands on, and leaves every other pixel as it was.
pub proof fn lemma_plot_run_pixelwise(
    setup: Setup,
    data: Seq<u8>,
    color: Color,
    x_major: bool,
    base: int,
    minor: Seq<Fixed>,
    k: int,
    n: int,
    px: int,
    py: int,
)
    requires
        crate::canvas::data_fits(data, setup.canvas_size),
        crate::canvas::on_canvas(setup.canvas_size, px, py),
        0 <= k,
    ensures
        crate::canvas::data_fits(
            setup.plot_run_spec(data, color, x_major, base, minor, k, n),
            setup.canvas_size,
        ),
        crate::canvas::pixel_bytes(
            setup.plot_run_spec(data, color, x_major, base, minor, k, n),
            setup.canvas_size,
            px,
            py,
        ) == if Setup::run_covers_spec(x_major, base, minor, k, n, px, py) {
            crate::canvas::color_bytes_spec(color)
        } else {
            crate::canvas::pixel_bytes(data, setup.canvas_size, px, py)
        },
    decreases n - k,
{
    if k < n {
        let m = minor[k].to_int_spec();
        let (cx, cy) = if x_major {
            (base + k, m)
        } else {
            (m, base + k)
        };
        let next = put_pixel_spec(data, setup.canvas_size, cx, cy, color);
        crate::canvas::lemma_put_pixel_pixelwise(data, setup.canvas_size, cx, cy, color, px, py);
        lemma_plot_run_pixelwise(setup, next, color, x_major, base, minor, k + 1, n, px, py);
    }
}

/// A line gives its colour to each pixel that one of its steps lands on,
/// and leaves every other pixel as it was.
pub proof fn lemma_draw_line_pixelwise(
    setup: Setup,
    data: Seq<u8>,
    p0: Vector2,
    p1: Vector2,
    color: Color,
    px: int,
    py: int,
)
    requires
        crate::canvas::data_fits(data, setup.canvas_size),
        crate::canvas::on_canvas(setup.canvas_size, px, py),
    ensures
        crate::canvas::data_fits(setup.draw_line_spec(data, p0, p1, color), setup.canvas_size),
        crate::canvas::pixel_bytes(setup.draw_line_spec(data, p0, p1, color), setup.canvas_size, px, py)
            == if Setup::line_covers_spec(p0, p1, px, py) {
            crate::canvas::color_bytes_spec(color)
        } else {
            crate::canvas::pixel_bytes(data, setup.canvas_size, px, py)
        },
{
    if p1.x.sub_spec(p0.x).abs_spec().raw > p1.y.sub_spec(p0.y).abs_spec().raw {
        let (a, b) = if p0.x.raw > p1.x.raw {
            (p1, p0)
        } else {
            (p0, p1)
        };
        lemma_plot_run_pixelwise(
            setup,
            data,
            color,
            true,
            a.x.to_int_spec(),
            interpolate_spec(a.x, a.y, b.x, b.y),
            0,
            sample_count(a.x, b.x),
            px,
            py,
        );
    } else {
        let (a, b) = if p0.y.raw > p1.y.raw {
            (p1, p0)
        } else {
            (p0, p1)
        };
        lemma_plot_run_pixelwise(
            setup,
            data,
            color,
            false,
            a.y.to_int_spec(),
            interpolate_spec(a.y, a.x, b.y, b.x),
            0,
            sample_count(a.y, b.y),
            px,
            py,
        );
    }
}

} // verus!
