//! Visibility: of all the triangles that are drawn, a pixel shows the
//! nearest one that covers it, in whatever order they are drawn.
use crate::canvas::{color_bytes_spec, on_canvas};
use crate::color::Color;
use crate::fixed::Fixed;
use crate::interpolate::Varying;
use crate::math::Vector2;
use crate::occlusion::{lemma_triangle_pixelwise, PixelState};
use crate::rasterization::{Setup, Surface};
use crate::scene::{Instance, InstanceView};
use vstd::prelude::*;

verus! {

/// Whether a fragment, if there is one, lies farther than the reciprocal
/// depth `z`.
pub open spec fn farther_than(fragment: Option<Varying>, z: Fixed) -> bool {
    match fragment {
        Some(a) => a.inv_z.raw < z.raw,
        None => true,
    }
}

/// Whether a pixel still waits for a fragment of the reciprocal depth `z`:
/// it is empty or holds something farther.
pub open spec fn waits_for(state: PixelState, z: Fixed) -> bool {
    state.depth.raw == 0 || state.depth.raw < z.raw
}

/// The state of a pixel that shows the fragment `a` in the colour `color`.
pub open spec fn shows(a: Varying, color: Color) -> PixelState {
    PixelState { depth: a.inv_z, rgba: color_bytes_spec(color) }
}

/// Whether the triangle `j` of an instance in camera space is the nearest
/// at the pixel `(x, y)`: its fragment there is `nearest`, whose reciprocal
/// depth is not zero, and every other triangle of the instance has no
/// fragment there or a farther one.
pub open spec fn is_nearest_at(
    setup: Setup,
    instance: InstanceView,
    projected: Seq<Vector2>,
    j: int,
    nearest: Varying,
    x: int,
    y: int,
) -> bool {
    &&& 0 <= j < instance.model.triangles.len()
    &&& setup.triangle_fragment_spec(instance, instance.model.triangles[j], projected, x, y) == Some(
        nearest,
    )
    &&& nearest.inv_z.raw != 0
    &&& forall|i: int|
        0 <= i < instance.model.triangles.len() && i != j ==> farther_than(
            #[trigger] setup.triangle_fragment_spec(
                instance,
                instance.model.triangles[i],
                projected,
                x,
                y,
            ),
            nearest.inv_z,
        )
}

/// Drawing triangles that are all farther at a pixel than a fragment of
/// the reciprocal depth `won.depth` changes nothing about it: a pixel that
/// is in the state `won` stays so, and one that waits for that depth goes
/// on waiting.
pub proof fn lemma_farther_triangles_keep(
    setup: Setup,
    s: Surface,
    instance: InstanceView,
    projected: Seq<Vector2>,
    won: PixelState,
    px: int,
    py: int,
    k: nat,
)
    requires
        s.fits(setup.canvas_size),
        on_canvas(setup.canvas_size, px, py),
        won.depth.raw != 0,
        forall|i: int|
            0 <= i < k ==> farther_than(
                #[trigger] setup.triangle_fragment_spec(
                    instance,
                    instance.model.triangles[i],
                    projected,
                    px,
                    py,
                ),
                won.depth,
            ),
    ensures
        setup.render_triangles_upto(s, instance, projected, k).fits(setup.canvas_size),
        waits_for(s.pixel(setup.canvas_size, px, py), won.depth) ==> waits_for(
            setup.render_triangles_upto(s, instance, projected, k).pixel(setup.canvas_size, px, py),
            won.depth,
        ),
        s.pixel(setup.canvas_size, px, py) == won ==> setup.render_triangles_upto(
            s,
            instance,
            projected,
            k,
        ).pixel(setup.canvas_size, px, py) == won,
    decreases k,
{
    if k > 0 {
        let before = setup.render_triangles_upto(s, instance, projected, (k - 1) as nat);
        lemma_farther_triangles_keep(setup, s, instance, projected, won, px, py, (k - 1) as nat);
        lemma_triangle_pixelwise(setup, before, instance, instance.model.triangles[k - 1], projected, px, py);
        assert(farther_than(
            setup.triangle_fragment_spec(instance, instance.model.triangles[k - 1], projected, px, py),
            won.depth,
        ));
    }
}

/// After the first `k` triangles of an instance are drawn, a pixel that
/// waited for the nearest triangle shows it if it is among them, and else
/// goes on waiting.
pub proof fn lemma_nearest_upto(
    setup: Setup,
    s: Surface,
    instance: InstanceView,
    projected: Seq<Vector2>,
    j: int,
    nearest: Varying,
    px: int,
    py: int,
    k: nat,
)
    requires
        s.fits(setup.canvas_size),
        on_canvas(setup.canvas_size, px, py),
        k <= instance.model.triangles.len(),
        is_nearest_at(setup, instance, projected, j, nearest, px, py),
        waits_for(s.pixel(setup.canvas_size, px, py), nearest.inv_z),
    ensures
        setup.render_triangles_upto(s, instance, projected, k).fits(setup.canvas_size),
        j < k ==> setup.render_triangles_upto(s, instance, projected, k).pixel(setup.canvas_size, px, py)
            == shows(
            nearest,
            setup.fragment_color_spec(
                instance.model.texture,
                instance.model.triangles[j].color,
                px,
                py,
                nearest,
            ),
        ),
        j >= k ==> waits_for(
            setup.render_triangles_upto(s, instance, projected, k).pixel(setup.canvas_size, px, py),
            nearest.inv_z,
        ),
    decreases k,
{
    if k > 0 {
        let i = k - 1;
        let before = setup.render_triangles_upto(s, instance, projected, i as nat);
        lemma_nearest_upto(setup, s, instance, projected, j, nearest, px, py, i as nat);
        lemma_triangle_pixelwise(setup, before, instance, instance.model.triangles[i], projected, px, py);
        if i != j {
            assert(farther_than(
                setup.triangle_fragment_spec(instance, instance.model.triangles[i], projected, px, py),
                nearest.inv_z,
            ));
        }
    }
}

/// After the triangles of an instance are drawn in any order, a pixel that
/// nothing nearer held before shows the nearest triangle that covers it:
/// its colour there, and its depth in the depth buffer.
pub proof fn lemma_nearest_triangle_is_seen(
    setup: Setup,
    s: Surface,
    instance: InstanceView,
    projected: Seq<Vector2>,
    j: int,
    nearest: Varying,
    px: int,
    py: int,
)
    requires
        s.fits(setup.canvas_size),
        on_canvas(setup.canvas_size, px, py),
        is_nearest_at(setup, instance, projected, j, nearest, px, py),
        waits_for(s.pixel(setup.canvas_size, px, py), nearest.inv_z),
    ensures
        setup.render_triangles_upto(s, instance, projected, instance.model.triangles.len()).pixel(
            setup.canvas_size,
            px,
            py,
        ) == shows(
            nearest,
            setup.fragment_color_spec(
                instance.model.texture,
                instance.model.triangles[j].color,
                px,
                py,
                nearest,
            ),
        ),
{
    lemma_nearest_upto(
        setup,
        s,
        instance,
        projected,
        j,
        nearest,
        px,
        py,
        instance.model.triangles.len(),
    );
}

impl Setup {
    /// The attributes of the fragment that the triangle `j` of an instance
    /// of the world has at the pixel `(x, y)`, once the instance is moved
    /// into camera space and clipped; none where nothing of the triangle
    /// `j` is left or it does not cover the pixel.
    #[verifier::opaque]
    pub open spec fn scene_fragment_spec(self, instance: InstanceView, j: int, x: int, y: int) -> Option<
        Varying,
    > {
        match self.clipped_spec(instance) {
            Some(clipped) => if 0 <= j < clipped.model.triangles.len() {
                self.triangle_fragment_spec(
                    clipped,
                    clipped.model.triangles[j],
                    self.project_all_spec(clipped.model.vertices),
                    x,
                    y,
                )
            } else {
                None
            },
            None => None,
        }
    }

    /// The colour of the fragment of the triangle `j` of an instance of
    /// the world at the pixel `(x, y)`.
    #[verifier::opaque]
    pub open spec fn scene_fragment_color_spec(
        self,
        instance: InstanceView,
        j: int,
        x: int,
        y: int,
        a: Varying,
    ) -> Color {
        match self.clipped_spec(instance) {
            Some(clipped) => self.fragment_color_spec(
                clipped.model.texture,
                clipped.model.triangles[j].color,
                x,
                y,
                a,
            ),
            None => Color::black_spec(),
        }
    }
}

/// Whether the triangle `j` of the instance `i` of a scene is the nearest
/// at the pixel `(x, y)`: its fragment there is `nearest`, whose reciprocal
/// depth is not zero, and every other triangle of every instance has no
/// fragment there or a farther one.
pub open spec fn is_nearest_in_scene(
    setup: Setup,
    instances: Seq<Instance>,
    i: int,
    j: int,
    nearest: Varying,
    x: int,
    y: int,
) -> bool {
    &&& 0 <= i < instances.len()
    &&& setup.scene_fragment_spec(instances[i]@, j, x, y) == Some(nearest)
    &&& nearest.inv_z.raw != 0
    &&& forall|e: int, f: int|
        0 <= e < instances.len() && !(e == i && f == j) ==> farther_than(
            #[trigger] setup.scene_fragment_spec(instances[e]@, f, x, y),
            nearest.inv_z,
        )
}

/// Drawing an instance of the world is drawing the triangles of the
/// clipped instance over its projected vertices.
pub proof fn lemma_render_instance(setup: Setup, s: Surface, instance: InstanceView)
    ensures
        setup.render_instance_spec(s, instance) == match setup.clipped_spec(instance) {
            Some(clipped) => setup.render_triangles_upto(
                s,
                clipped,
                setup.project_all_spec(clipped.model.vertices),
                clipped.model.triangles.len(),
            ),
            None => s,
        },
{
    reveal(Setup::render_instance_spec);
}

/// A fragment of a triangle of an instance of the world is the fragment of
/// that triangle of the clipped instance.
pub proof fn lemma_scene_fragment(setup: Setup, instance: InstanceView, j: int, x: int, y: int)
    ensures
        setup.scene_fragment_spec(instance, j, x, y) == match setup.clipped_spec(instance) {
            Some(clipped) => if 0 <= j < clipped.model.triangles.len() {
                setup.triangle_fragment_spec(
                    clipped,
                    clipped.model.triangles[j],
                    setup.project_all_spec(clipped.model.vertices),
                    x,
                    y,
                )
            } else {
                None
            },
            None => None,
        },
{
    reveal(Setup::scene_fragment_spec);
}

/// The colour of a fragment of a triangle of an instance of the world is
/// its colour on the clipped instance.
pub proof fn lemma_scene_fragment_color(
    setup: Setup,
    instance: InstanceView,
    j: int,
    x: int,
    y: int,
    a: Varying,
)
    requires
        setup.clipped_spec(instance).is_some(),
    ensures
        setup.scene_fragment_color_spec(instance, j, x, y, a) == setup.fragment_color_spec(
            setup.clipped_spec(instance).unwrap().model.texture,
            setup.clipped_spec(instance).unwrap().model.triangles[j].color,
            x,
            y,
            a,
        ),
{
    reveal(Setup::scene_fragment_color_spec);
}

/// Drawing an instance all of whose fragments at a pixel are farther than
/// a fragment of the reciprocal depth `won.depth` changes nothing about
/// it: a pixel that is in the state `won` stays so, and one that waits for
/// that depth goes on waiting.
pub proof fn lemma_farther_instance_keeps(
    setup: Setup,
    s: Surface,
    instance: InstanceView,
    won: PixelState,
    px: int,
    py: int,
)
    requires
        s.fits(setup.canvas_size),
        on_canvas(setup.canvas_size, px, py),
        won.depth.raw != 0,
        forall|f: int| farther_than(#[trigger] setup.scene_fragment_spec(instance, f, px, py), won.depth),
    ensures
        setup.render_instance_spec(s, instance).fits(setup.canvas_size),
        waits_for(s.pixel(setup.canvas_size, px, py), won.depth) ==> waits_for(
            setup.render_instance_spec(s, instance).pixel(setup.canvas_size, px, py),
            won.depth,
        ),
        s.pixel(setup.canvas_size, px, py) == won ==> setup.render_instance_spec(s, instance).pixel(
            setup.canvas_size,
            px,
            py,
        ) == won,
{
    lemma_render_instance(setup, s, instance);
    match setup.clipped_spec(instance) {
        None => {},
        Some(clipped) => {
            let projected = setup.project_all_spec(clipped.model.vertices);
            let n = clipped.model.triangles.len();
            assert forall|f: int| 0 <= f < n implies farther_than(
                #[trigger] setup.triangle_fragment_spec(
                    clipped,
                    clipped.model.triangles[f],
                    projected,
                    px,
                    py,
                ),
                won.depth,
            ) by {
                lemma_scene_fragment(setup, instance, f, px, py);
                assert(farther_than(setup.scene_fragment_spec(instance, f, px, py), won.depth));
            }
            lemma_farther_triangles_keep(setup, s, clipped, projected, won, px, py, n);
        },
    }
}

/// The triangle that is the nearest of an instance of the world at a pixel
/// is the nearest among the triangles of the clipped instance.
pub proof fn lemma_nearest_of_clipped(
    setup: Setup,
    instance: InstanceView,
    j: int,
    nearest: Varying,
    px: int,
    py: int,
)
    requires
        setup.scene_fragment_spec(instance, j, px, py) == Some(nearest),
        nearest.inv_z.raw != 0,
        forall|f: int|
            f != j ==> farther_than(#[trigger] setup.scene_fragment_spec(instance, f, px, py), nearest.inv_z),
    ensures
        setup.clipped_spec(instance).is_some(),
        is_nearest_at(
            setup,
            setup.clipped_spec(instance).unwrap(),
            setup.project_all_spec(setup.clipped_spec(instance).unwrap().model.vertices),
            j,
            nearest,
            px,
            py,
        ),
{
    lemma_scene_fragment(setup, instance, j, px, py);
    let clipped = setup.clipped_spec(instance).unwrap();
    let projected = setup.project_all_spec(clipped.model.vertices);
    let triangles = clipped.model.triangles;
    assert(0 <= j < triangles.len());
    assert(setup.triangle_fragment_spec(clipped, triangles[j], projected, px, py) == Some(nearest));
    assert forall|f: int| 0 <= f < triangles.len() && f != j implies farther_than(
        #[trigger] setup.triangle_fragment_spec(clipped, triangles[f], projected, px, py),
        nearest.inv_z,
    ) by {
        let scene = setup.scene_fragment_spec(instance, f, px, py);
        assert(farther_than(scene, nearest.inv_z));
        lemma_scene_fragment(setup, instance, f, px, py);
        assert(scene == setup.triangle_fragment_spec(clipped, triangles[f], projected, px, py));
    }
}

/// Drawing the instance that holds the nearest fragment of the scene at a
/// pixel that waits for it leaves the pixel with that fragment.
pub proof fn lemma_nearest_instance_wins(
    setup: Setup,
    s: Surface,
    instance: InstanceView,
    j: int,
    nearest: Varying,
    px: int,
    py: int,
)
    requires
        s.fits(setup.canvas_size),
        on_canvas(setup.canvas_size, px, py),
        setup.scene_fragment_spec(instance, j, px, py) == Some(nearest),
        nearest.inv_z.raw != 0,
        waits_for(s.pixel(setup.canvas_size, px, py), nearest.inv_z),
        forall|f: int|
            f != j ==> farther_than(#[trigger] setup.scene_fragment_spec(instance, f, px, py), nearest.inv_z),
    ensures
        setup.render_instance_spec(s, instance).fits(setup.canvas_size),
        setup.render_instance_spec(s, instance).pixel(setup.canvas_size, px, py) == shows(
            nearest,
            setup.scene_fragment_color_spec(instance, j, px, py, nearest),
        ),
{
    lemma_nearest_of_clipped(setup, instance, j, nearest, px, py);
    lemma_render_instance(setup, s, instance);
    lemma_scene_fragment_color(setup, instance, j, px, py, nearest);
    let clipped = setup.clipped_spec(instance).unwrap();
    lemma_nearest_upto(
        setup,
        s,
        clipped,
        setup.project_all_spec(clipped.model.vertices),
        j,
        nearest,
        px,
        py,
        clipped.model.triangles.len(),
    );
}

/// After the first `k` instances of a scene are drawn, a pixel that was
/// empty shows the nearest triangle of the scene if its instance is among
/// them, and else goes on waiting.
pub proof fn lemma_nearest_in_scene_upto(
    setup: Setup,
    s: Surface,
    instances: Seq<Instance>,
    i: int,
    j: int,
    nearest: Varying,
    px: int,
    py: int,
    k: nat,
)
    requires
        s.fits(setup.canvas_size),
        on_canvas(setup.canvas_size, px, py),
        s.pixel(setup.canvas_size, px, py).depth.raw == 0,
        is_nearest_in_scene(setup, instances, i, j, nearest, px, py),
        k <= instances.len(),
    ensures
        setup.render_scene_upto(s, instances, k).fits(setup.canvas_size),
        i < k ==> setup.render_scene_upto(s, instances, k).pixel(setup.canvas_size, px, py) == shows(
            nearest,
            setup.scene_fragment_color_spec(instances[i]@, j, px, py, nearest),
        ),
        i >= k ==> waits_for(
            setup.render_scene_upto(s, instances, k).pixel(setup.canvas_size, px, py),
            nearest.inv_z,
        ),
    decreases k,
{
    if k > 0 {
        let e = k - 1;
        let before = setup.render_scene_upto(s, instances, e as nat);
        lemma_nearest_in_scene_upto(setup, s, instances, i, j, nearest, px, py, e as nat);
        let won = shows(nearest, setup.scene_fragment_color_spec(instances[i]@, j, px, py, nearest));
        if e == i {
            assert forall|f: int| f != j implies farther_than(
                #[trigger] setup.scene_fragment_spec(instances[e]@, f, px, py),
                nearest.inv_z,
            ) by {
                assert(!(e == i && f == j));
            }
            lemma_nearest_instance_wins(setup, before, instances[e]@, j, nearest, px, py);
        } else {
            assert forall|f: int|
                farther_than(#[trigger] setup.scene_fragment_spec(instances[e]@, f, px, py), won.depth) by {
                assert(!(e == i && f == j));
            }
            lemma_farther_instance_keeps(setup, before, instances[e]@, won, px, py);
        }
    }
}

/// Every pixel shows the nearest fragment of the scene, in whatever order
/// the instances and their triangles are drawn: where one triangle is the
/// nearest at a pixel that was empty, the pixel ends with that triangle's
/// colour there and with its depth.
pub proof fn lemma_nearest_in_scene_is_seen(
    setup: Setup,
    s: Surface,
    instances: Seq<Instance>,
    i: int,
    j: int,
    nearest: Varying,
    px: int,
    py: int,
)
    requires
        s.fits(setup.canvas_size),
        on_canvas(setup.canvas_size, px, py),
        s.pixel(setup.canvas_size, px, py).depth.raw == 0,
        is_nearest_in_scene(setup, instances, i, j, nearest, px, py),
    ensures
        setup.render_scene_upto(s, instances, instances.len()).pixel(setup.canvas_size, px, py) == shows(
            nearest,
            setup.scene_fragment_color_spec(instances[i]@, j, px, py, nearest),
        ),
{
    lemma_nearest_in_scene_upto(setup, s, instances, i, j, nearest, px, py, instances.len());
}

} // verus!
