//! Depth-buffer occlusion: what filling triangles does to each single
//! pixel, and why the nearer of two triangles is seen whichever is drawn
//! first.
use crate::canvas::{depth_passes, put_pixel_spec, Rectangle};
use crate::color::Color;
use crate::filled::EdgeTables;
use crate::fixed::Fixed;
use crate::interpolate::Varying;
use crate::math::Vector2;
use crate::rasterization::{Setup, Surface};
use crate::scene::{InstanceView, Texture, Triangle};
use vstd::prelude::*;

verus! {

/// What the buffers hold for one pixel: its depth and its four bytes.
pub ghost struct PixelState {
    pub depth: Fixed,
    pub rgba: Seq<u8>,
}

/// The state of a pixel after a fragment of reciprocal depth `z` and the
/// colour `color` is offered to it: the fragment takes the pixel where the
/// pixel is empty or holds a smaller reciprocal depth.
pub open spec fn offer_spec(state: PixelState, z: Fixed, color: Color) -> PixelState {
    if state.depth.raw == 0 || state.depth.raw < z.raw {
        PixelState { depth: z, rgba: crate::canvas::color_bytes_spec(color) }
    } else {
        state
    }
}

impl Surface {
    /// What the buffers hold for the pixel `(x, y)`.
    pub open spec fn pixel(self, size: Rectangle, x: int, y: int) -> PixelState {
        let i = crate::canvas::pixel_index(size, x, y);
        PixelState { depth: self.depth[i], rgba: self.data.subrange(4 * i, 4 * i + 4) }
    }
}

impl Setup {
    /// The attributes of the fragment at `x` on a scanline that runs from
    /// `xl` to `xr`, if the scanline reaches `x`.
    pub open spec fn row_fragment_spec(xl: Fixed, al: Varying, xr: Fixed, ar: Varying, x: int) -> Option<
        Varying,
    > {
        if xl.to_int_spec() <= x <= xr.to_int_spec() {
            Some(Varying::interpolate_spec(xl, al, xr, ar)[x - xl.to_int_spec()])
        } else {
            None
        }
    }

    /// The attributes of the fragment that a triangle has at the pixel
    /// `(x, y)`, if it covers the pixel.
    #[verifier::opaque]
    pub open spec fn triangle_fragment_spec(
        self,
        instance: InstanceView,
        triangle: Triangle,
        projected: Seq<Vector2>,
        x: int,
        y: int,
    ) -> Option<Varying> {
        match self.edge_tables_spec(instance, triangle, projected) {
            None => None,
            Some(t) => {
                let k = y - t.y_from;
                if 0 <= k < t.x_left.len() {
                    Setup::row_fragment_spec(t.x_left[k], t.a_left[k], t.x_right[k], t.a_right[k], x)
                } else {
                    None
                }
            },
        }
    }

    /// The state of the pixel `(x, y)` after a triangle is filled, given
    /// its state before: the triangle's fragment there, if it has one, is
    /// offered to the pixel.
    pub open spec fn pixel_after_triangle_spec(
        self,
        state: PixelState,
        instance: InstanceView,
        triangle: Triangle,
        projected: Seq<Vector2>,
        x: int,
        y: int,
    ) -> PixelState {
        match self.triangle_fragment_spec(instance, triangle, projected, x, y) {
            None => state,
            Some(a) => offer_spec(
                state,
                a.inv_z,
                self.fragment_color_spec(instance.model.texture, triangle.color, x, y, a),
            ),
        }
    }
}

/// Offering a fragment changes the pixel it lies on as [`offer_spec`] says,
/// and no other pixel.
pub proof fn lemma_shade_fragment_pixelwise(
    setup: Setup,
    s: Surface,
    texture: Option<Texture>,
    flat: Color,
    x: int,
    y: int,
    a: Varying,
    px: int,
    py: int,
)
    requires
        s.fits(setup.canvas_size),
        crate::canvas::on_canvas(setup.canvas_size, px, py),
    ensures
        setup.shade_fragment_spec(s, texture, flat, x, y, a).fits(setup.canvas_size),
        setup.shade_fragment_spec(s, texture, flat, x, y, a).pixel(setup.canvas_size, px, py) == if x
            == px && y == py {
            offer_spec(
                s.pixel(setup.canvas_size, px, py),
                a.inv_z,
                setup.fragment_color_spec(texture, flat, x, y, a),
            )
        } else {
            s.pixel(setup.canvas_size, px, py)
        },
{
    let size = setup.canvas_size;
    let after = setup.shade_fragment_spec(s, texture, flat, x, y, a);
    let color = setup.fragment_color_spec(texture, flat, x, y, a);
    let i = crate::canvas::pixel_index(size, px, py);
    crate::canvas::lemma_pixel_places(size, px, py, px, py);
    crate::canvas::lemma_put_pixel_effect(s.data, size, x, y, color);
    if crate::canvas::on_canvas(size, x, y) {
        crate::canvas::lemma_pixel_places(size, x, y, px, py);
        let j = crate::canvas::pixel_index(size, x, y);
        if depth_passes(s.depth, size, x, y, a.inv_z) {
            if x == px && y == py {
                assert(after.data.subrange(4 * i, 4 * i + 4) =~= crate::canvas::color_bytes_spec(color));
            } else {
                assert(after.data.subrange(4 * i, 4 * i + 4) =~= s.data.subrange(4 * i, 4 * i + 4));
            }
        }
    }
}

/// Filling part of a scanline offers one fragment to each pixel of that
/// part and leaves every other pixel as it was.
pub proof fn lemma_fill_span_pixelwise(
    setup: Setup,
    s: Surface,
    texture: Option<Texture>,
    flat: Color,
    y: int,
    x_from: int,
    scan: Seq<Varying>,
    k: int,
    n: int,
    px: int,
    py: int,
)
    requires
        s.fits(setup.canvas_size),
        crate::canvas::on_canvas(setup.canvas_size, px, py),
        0 <= k,
    ensures
        setup.fill_span_spec(s, texture, flat, y, x_from, scan, k, n).fits(setup.canvas_size),
        setup.fill_span_spec(s, texture, flat, y, x_from, scan, k, n).pixel(setup.canvas_size, px, py)
            == if py == y && x_from + k <= px < x_from + n {
            offer_spec(
                s.pixel(setup.canvas_size, px, py),
                scan[px - x_from].inv_z,
                setup.fragment_color_spec(texture, flat, px, py, scan[px - x_from]),
            )
        } else {
            s.pixel(setup.canvas_size, px, py)
        },
    decreases n - k,
{
    if k < n {
        let next = setup.shade_fragment_spec(s, texture, flat, x_from + k, y, scan[k]);
        lemma_shade_fragment_pixelwise(setup, s, texture, flat, x_from + k, y, scan[k], px, py);
        lemma_fill_span_pixelwise(setup, next, texture, flat, y, x_from, scan, k + 1, n, px, py);
    }
}

/// Filling a scanline offers the scanline's fragment to each pixel that it
/// reaches and leaves every other pixel as it was.
pub proof fn lemma_fill_row_pixelwise(
    setup: Setup,
    s: Surface,
    texture: Option<Texture>,
    flat: Color,
    y: int,
    xl: Fixed,
    al: Varying,
    xr: Fixed,
    ar: Varying,
    px: int,
    py: int,
)
    requires
        s.fits(setup.canvas_size),
        crate::canvas::on_canvas(setup.canvas_size, px, py),
    ensures
        setup.fill_row_spec(s, texture, flat, y, xl, al, xr, ar).fits(setup.canvas_size),
        setup.fill_row_spec(s, texture, flat, y, xl, al, xr, ar).pixel(setup.canvas_size, px, py)
            == match Setup::row_fragment_spec(xl, al, xr, ar, px) {
            Some(a) if py == y => offer_spec(
                s.pixel(setup.canvas_size, px, py),
                a.inv_z,
                setup.fragment_color_spec(texture, flat, px, py, a),
            ),
            _ => s.pixel(setup.canvas_size, px, py),
        },
{
    if xl.to_int_spec() <= xr.to_int_spec() {
        lemma_fill_span_pixelwise(
            setup,
            s,
            texture,
            flat,
            y,
            xl.to_int_spec(),
            Varying::interpolate_spec(xl, al, xr, ar),
            0,
            xr.to_int_spec() - xl.to_int_spec() + 1,
            px,
            py,
        );
    }
}

/// Filling scanlines offers, on each of them, the scanline's fragment to
/// each pixel that it reaches, and leaves every other pixel as it was.
pub proof fn lemma_fill_rows_pixelwise(
    setup: Setup,
    s: Surface,
    texture: Option<Texture>,
    flat: Color,
    tables: EdgeTables,
    k: int,
    n: int,
    px: int,
    py: int,
)
    requires
        s.fits(setup.canvas_size),
        crate::canvas::on_canvas(setup.canvas_size, px, py),
        0 <= k,
    ensures
        setup.fill_rows_spec(
            s,
            texture,
            flat,
            tables.y_from,
            tables.x_left,
            tables.a_left,
            tables.x_right,
            tables.a_right,
            k,
            n,
        ).fits(setup.canvas_size),
        setup.fill_rows_spec(
            s,
            texture,
            flat,
            tables.y_from,
            tables.x_left,
            tables.a_left,
            tables.x_right,
            tables.a_right,
            k,
            n,
        ).pixel(setup.canvas_size, px, py) == if tables.y_from + k <= py < tables.y_from + n {
            let j = py - tables.y_from;
            match Setup::row_fragment_spec(
                tables.x_left[j],
                tables.a_left[j],
                tables.x_right[j],
                tables.a_right[j],
                px,
            ) {
                Some(a) => offer_spec(
                    s.pixel(setup.canvas_size, px, py),
                    a.inv_z,
                    setup.fragment_color_spec(texture, flat, px, py, a),
                ),
                None => s.pixel(setup.canvas_size, px, py),
            }
        } else {
            s.pixel(setup.canvas_size, px, py)
        },
    decreases n - k,
{
    if k < n {
        let next = setup.fill_row_spec(
            s,
            texture,
            flat,
            tables.y_from + k,
            tables.x_left[k],
            tables.a_left[k],
            tables.x_right[k],
            tables.a_right[k],
        );
        lemma_fill_row_pixelwise(
            setup,
            s,
            texture,
            flat,
            tables.y_from + k,
            tables.x_left[k],
            tables.a_left[k],
            tables.x_right[k],
            tables.a_right[k],
            px,
            py,
        );
        lemma_fill_rows_pixelwise(setup, next, texture, flat, tables, k + 1, n, px, py);
    }
}

/// Filling a triangle offers its fragment to each pixel that it covers and
/// leaves every other pixel as it was.
pub proof fn lemma_triangle_pixelwise(
    setup: Setup,
    s: Surface,
    instance: InstanceView,
    triangle: Triangle,
    projected: Seq<Vector2>,
    px: int,
    py: int,
)
    requires
        s.fits(setup.canvas_size),
        crate::canvas::on_canvas(setup.canvas_size, px, py),
    ensures
        setup.draw_filled_triangle_spec(s, instance, triangle, projected).fits(setup.canvas_size),
        setup.draw_filled_triangle_spec(s, instance, triangle, projected).pixel(
            setup.canvas_size,
            px,
            py,
        ) == setup.pixel_after_triangle_spec(
            s.pixel(setup.canvas_size, px, py),
            instance,
            triangle,
            projected,
            px,
            py,
        ),
{
    reveal(Setup::triangle_fragment_spec);
    match setup.edge_tables_spec(instance, triangle, projected) {
        None => {},
        Some(t) => {
            lemma_fill_rows_pixelwise(
                setup,
                s,
                instance.model.texture,
                triangle.color,
                t,
                0,
                t.x_left.len() as int,
                px,
                py,
            );
        },
    }
}

/// Of two fragments at one pixel the nearer one is seen, in whichever order
/// they are offered: where the first has the larger reciprocal depth, and
/// that depth is not the zero that marks an empty slot, both orders leave
/// the same surface; and where the nearer fragment passes the depth test
/// on the surface as it was, the pixel ends with its colour and the depth
/// buffer with its depth.
pub proof fn lemma_nearer_fragment_wins(
    setup: Setup,
    s: Surface,
    texture1: Option<Texture>,
    flat1: Color,
    a1: Varying,
    texture2: Option<Texture>,
    flat2: Color,
    a2: Varying,
    x: int,
    y: int,
)
    requires
        a1.inv_z.raw > a2.inv_z.raw,
        a1.inv_z.raw != 0,
    ensures
        setup.shade_fragment_spec(
            setup.shade_fragment_spec(s, texture1, flat1, x, y, a1),
            texture2,
            flat2,
            x,
            y,
            a2,
        ) == setup.shade_fragment_spec(
            setup.shade_fragment_spec(s, texture2, flat2, x, y, a2),
            texture1,
            flat1,
            x,
            y,
            a1,
        ),
        depth_passes(s.depth, setup.canvas_size, x, y, a1.inv_z) ==> setup.shade_fragment_spec(
            setup.shade_fragment_spec(s, texture2, flat2, x, y, a2),
            texture1,
            flat1,
            x,
            y,
            a1,
        ) == (Surface {
            data: put_pixel_spec(
                s.data,
                setup.canvas_size,
                x,
                y,
                setup.fragment_color_spec(texture1, flat1, x, y, a1),
            ),
            depth: s.depth.update(crate::canvas::pixel_index(setup.canvas_size, x, y), a1.inv_z),
        }),
{
    let size = setup.canvas_size;
    let c1 = setup.fragment_color_spec(texture1, flat1, x, y, a1);
    let c2 = setup.fragment_color_spec(texture2, flat2, x, y, a2);
    let first = setup.shade_fragment_spec(s, texture1, flat1, x, y, a1);
    let second = setup.shade_fragment_spec(s, texture2, flat2, x, y, a2);
    let one_two = setup.shade_fragment_spec(first, texture2, flat2, x, y, a2);
    let two_one = setup.shade_fragment_spec(second, texture1, flat1, x, y, a1);
    if depth_passes(s.depth, size, x, y, a1.inv_z) {
        let i = crate::canvas::pixel_index(size, x, y);
        assert(first.depth[i] == a1.inv_z);
        assert(!depth_passes(first.depth, size, x, y, a2.inv_z));
        assert(one_two == first);
        assert(depth_passes(second.depth, size, x, y, a1.inv_z));
        assert(two_one.depth =~= first.depth);
        assert(two_one.data =~= first.data);
    } else {
        assert(first == s);
        if depth_passes(s.depth, size, x, y, a2.inv_z) {
            let i = crate::canvas::pixel_index(size, x, y);
            assert(second.depth[i] == a2.inv_z);
            assert(false);
        }
    }
}

/// Offering two fragments to a pixel leaves the nearer one, in whichever
/// order they come: where the first has the larger reciprocal depth, and
/// that depth is not the zero that marks an empty pixel.
pub proof fn lemma_offer_commutes(state: PixelState, z1: Fixed, c1: Color, z2: Fixed, c2: Color)
    requires
        z1.raw > z2.raw,
        z1.raw != 0,
    ensures
        offer_spec(offer_spec(state, z1, c1), z2, c2) == offer_spec(offer_spec(state, z2, c2), z1, c1),
        state.depth.raw == 0 || state.depth.raw < z1.raw ==> offer_spec(
            offer_spec(state, z2, c2),
            z1,
            c1,
        ) == (PixelState { depth: z1, rgba: crate::canvas::color_bytes_spec(c1) }),
{
}

/// Depth-buffer occlusion: where two triangles cover one pixel at
/// different depths, the pixel shows the nearer of them whichever is drawn
/// first. The first triangle's fragment at the pixel has the larger
/// reciprocal depth, which is not the zero that marks an empty pixel. Then
/// both orders leave the pixel in the same state; and where nothing nearer
/// held the pixel before, it ends with the nearer fragment's colour and
/// depth.
pub proof fn lemma_nearer_triangle_wins(
    setup: Setup,
    s: Surface,
    instance1: InstanceView,
    triangle1: Triangle,
    projected1: Seq<Vector2>,
    instance2: InstanceView,
    triangle2: Triangle,
    projected2: Seq<Vector2>,
    px: int,
    py: int,
)
    requires
        s.fits(setup.canvas_size),
        crate::canvas::on_canvas(setup.canvas_size, px, py),
        setup.triangle_fragment_spec(instance1, triangle1, projected1, px, py).is_some(),
        setup.triangle_fragment_spec(instance2, triangle2, projected2, px, py).is_some(),
        setup.triangle_fragment_spec(instance1, triangle1, projected1, px, py).unwrap().inv_z.raw
            > setup.triangle_fragment_spec(instance2, triangle2, projected2, px, py).unwrap().inv_z.raw,
        setup.triangle_fragment_spec(instance1, triangle1, projected1, px, py).unwrap().inv_z.raw != 0,
    ensures
        setup.draw_filled_triangle_spec(
            setup.draw_filled_triangle_spec(s, instance1, triangle1, projected1),
            instance2,
            triangle2,
            projected2,
        ).pixel(setup.canvas_size, px, py) == setup.draw_filled_triangle_spec(
            setup.draw_filled_triangle_spec(s, instance2, triangle2, projected2),
            instance1,
            triangle1,
            projected1,
        ).pixel(setup.canvas_size, px, py),
        ({
            let before = s.pixel(setup.canvas_size, px, py);
            let nearer = setup.triangle_fragment_spec(instance1, triangle1, projected1, px, py).unwrap();
            before.depth.raw == 0 || before.depth.raw < nearer.inv_z.raw
                ==> setup.draw_filled_triangle_spec(
                setup.draw_filled_triangle_spec(s, instance2, triangle2, projected2),
                instance1,
                triangle1,
                projected1,
            ).pixel(setup.canvas_size, px, py) == (PixelState {
                depth: nearer.inv_z,
                rgba: crate::canvas::color_bytes_spec(
                    setup.fragment_color_spec(
                        instance1.model.texture,
                        triangle1.color,
                        px,
                        py,
                        nearer,
                    ),
                ),
            })
        }),
{
    let size = setup.canvas_size;
    let a1 = setup.triangle_fragment_spec(instance1, triangle1, projected1, px, py).unwrap();
    let a2 = setup.triangle_fragment_spec(instance2, triangle2, projected2, px, py).unwrap();
    let c1 = setup.fragment_color_spec(instance1.model.texture, triangle1.color, px, py, a1);
    let c2 = setup.fragment_color_spec(instance2.model.texture, triangle2.color, px, py, a2);
    let first = setup.draw_filled_triangle_spec(s, instance1, triangle1, projected1);
    let second = setup.draw_filled_triangle_spec(s, instance2, triangle2, projected2);
    lemma_triangle_pixelwise(setup, s, instance1, triangle1, projected1, px, py);
    lemma_triangle_pixelwise(setup, s, instance2, triangle2, projected2, px, py);
    lemma_triangle_pixelwise(setup, first, instance2, triangle2, projected2, px, py);
    lemma_triangle_pixelwise(setup, second, instance1, triangle1, projected1, px, py);
    lemma_offer_commutes(s.pixel(size, px, py), a1.inv_z, c1, a2.inv_z, c2);
}

/// Under a single ambient light of intensity one, an untextured triangle is
/// drawn in one colour: every pixel either stays as it was or shows the
/// triangle's flat colour.
pub proof fn lemma_ambient_triangle_is_flat(
    setup: Setup,
    s: Surface,
    instance: InstanceView,
    triangle: Triangle,
    projected: Seq<Vector2>,
    px: int,
    py: int,
)
    requires
        s.fits(setup.canvas_size),
        crate::canvas::on_canvas(setup.canvas_size, px, py),
        setup.lights == seq![crate::scene::Light::Ambient { intensity: Fixed::one_spec() }],
        instance.model.texture.is_none(),
    ensures
        ({
            let before = s.pixel(setup.canvas_size, px, py);
            let after = setup.draw_filled_triangle_spec(s, instance, triangle, projected).pixel(
                setup.canvas_size,
                px,
                py,
            );
            after == before || after.rgba == crate::canvas::color_bytes_spec(triangle.color)
        }),
{
    lemma_triangle_pixelwise(setup, s, instance, triangle, projected, px, py);
    match setup.triangle_fragment_spec(instance, triangle, projected, px, py) {
        None => {},
        Some(a) => {
            crate::filled::lemma_ambient_light_is_uniform(
                setup,
                Fixed::one_spec(),
                triangle.color,
                px,
                py,
                a,
            );
        },
    }
}

} // verus!
