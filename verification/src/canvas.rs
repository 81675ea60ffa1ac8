//! The output surface: a row-major RGBA byte buffer and a depth buffer,
//! addressed through coordinates whose origin is the centre of the canvas,
//! with x to the right and y upward.
use crate::color::{channel_byte, channel_byte_spec, Color};
use crate::fixed::Fixed;
use vstd::prelude::*;

verus! {

/// A width and a height in pixels.
#[derive(Clone, Copy, Debug, PartialEq, Eq, Structural)]
pub struct Rectangle {
    pub w: i32,
    pub h: i32,
}

/// The buffer column of the centred coordinate `cx`: `ceil(w / 2 + cx)`.
pub open spec fn column_spec(size: Rectangle, cx: int) -> int {
    (size.w + 1) / 2 + cx
}

/// The buffer row of the centred coordinate `cy`: `ceil(h / 2 - cy - 1)`.
pub open spec fn row_spec(size: Rectangle, cy: int) -> int {
    (size.h + 1) / 2 - cy - 1
}

/// Whether the centred pixel `(cx, cy)` lies on the canvas.
pub open spec fn on_canvas(size: Rectangle, cx: int, cy: int) -> bool {
    &&& 0 <= column_spec(size, cx) < size.w
    &&& 0 <= row_spec(size, cy) < size.h
}

/// The position of the centred pixel `(cx, cy)` in row-major order.
pub open spec fn pixel_index(size: Rectangle, cx: int, cy: int) -> int {
    column_spec(size, cx) + size.w * row_spec(size, cy)
}

/// Whether a buffer of `len` bytes holds the four bytes of pixel `(cx, cy)`.
pub open spec fn pixel_writable(len: int, size: Rectangle, cx: int, cy: int) -> bool {
    on_canvas(size, cx, cy) && 4 * pixel_index(size, cx, cy) + 3 < len
}

/// The buffer after the pixel `(cx, cy)` is set to `color`: its four bytes
/// become the colour's channels and an alpha of 255; a pixel off the canvas
/// changes nothing.
pub open spec fn put_pixel_spec(data: Seq<u8>, size: Rectangle, cx: int, cy: int, color: Color) -> Seq<
    u8,
> {
    if pixel_writable(data.len() as int, size, cx, cy) {
        let o = 4 * pixel_index(size, cx, cy);
        data.update(o, channel_byte_spec(color.r)).update(o + 1, channel_byte_spec(color.g)).update(
            o + 2,
            channel_byte_spec(color.b),
        ).update(o + 3, 255u8)
    } else {
        data
    }
}

/// Whether a fragment of reciprocal depth `z` at pixel `(cx, cy)` is nearer
/// than what the depth buffer holds there: the slot is unwritten (zero) or
/// holds a smaller reciprocal depth.
pub open spec fn depth_passes(depth: Seq<Fixed>, size: Rectangle, cx: int, cy: int, z: Fixed) -> bool {
    &&& on_canvas(size, cx, cy)
    &&& pixel_index(size, cx, cy) < depth.len()
    &&& (depth[pixel_index(size, cx, cy)].raw == 0 || depth[pixel_index(size, cx, cy)].raw < z.raw)
}

/// The depth buffer after the fragment was offered to it.
pub open spec fn depth_after(depth: Seq<Fixed>, size: Rectangle, cx: int, cy: int, z: Fixed) -> Seq<
    Fixed,
> {
    if depth_passes(depth, size, cx, cy, z) {
        depth.update(pixel_index(size, cx, cy), z)
    } else {
        depth
    }
}

/// The row-major index of `(cx, cy)` if the pixel lies on the canvas.
pub fn locate_pixel(size: &Rectangle, cx: i32, cy: i32) -> (r: Option<u64>)
    ensures
        r.is_some() == on_canvas(*size, cx as int, cy as int),
        r.is_some() ==> r.unwrap() == pixel_index(*size, cx as int, cy as int),
        r.is_some() ==> r.unwrap() < size.w * size.h <= 0x4000_0000_0000_0000,
{
    if size.w <= 0 || size.h <= 0 {
        return None;
    }
    let w: i64 = size.w as i64;
    let h: i64 = size.h as i64;
    let x: i64 = (w + 1) / 2 + cx as i64;
    let y: i64 = (h + 1) / 2 - cy as i64 - 1;
    if x < 0 || x >= w || y < 0 || y >= h {
        return None;
    }
    assert(0 <= w * y && x + w * y < w * h && w * h <= 0x4000_0000_0000_0000) by (nonlinear_arith)
        requires
            0 <= x < w,
            0 <= y < h,
            w <= 0x7fff_ffff,
            h <= 0x7fff_ffff,
    ;
    Some((x + w * y) as u64)
}

/// Sets the pixel `(cx, cy)` to `color` with full alpha. A pixel off the
/// canvas is dropped.
pub fn put_pixels(data: &mut Vec<u8>, size: &Rectangle, cx: i32, cy: i32, color: Color)
    ensures
        final(data)@ == put_pixel_spec(old(data)@, *size, cx as int, cy as int, color),
        final(data)@.len() == old(data)@.len(),
{
    match locate_pixel(size, cx, cy) {
        None => {},
        Some(index) => {
            let len: u64 = data.len() as u64;
            let offset: u64 = 4 * index;
            if offset + 3 < len {
                let o: usize = offset as usize;
                data[o] = channel_byte(color.r);
                data[o + 1] = channel_byte(color.g);
                data[o + 2] = channel_byte(color.b);
                data[o + 3] = 255;
            }
        },
    }
}

/// Offers a fragment of reciprocal depth `z` to the depth buffer at
/// `(cx, cy)`. Returns whether it is nearer than what was there, in which
/// case the buffer now holds `z`; a pixel off the canvas is never nearer.
pub fn update_depth_buf_if_closer(
    depth: &mut Vec<Fixed>,
    size: &Rectangle,
    cx: i32,
    cy: i32,
    z: Fixed,
) -> (closer: bool)
    ensures
        closer == depth_passes(old(depth)@, *size, cx as int, cy as int, z),
        final(depth)@ == depth_after(old(depth)@, *size, cx as int, cy as int, z),
        final(depth)@.len() == old(depth)@.len(),
{
    match locate_pixel(size, cx, cy) {
        None => false,
        Some(index) => {
            let len: u64 = depth.len() as u64;
            if index < len {
                let i: usize = index as usize;
                if depth[i].raw == 0 || depth[i].raw < z.raw {
                    depth[i] = z;
                    true
                } else {
                    false
                }
            } else {
                false
            }
        },
    }
}

/// A rectangle of `w` by `h` pixels has room for `w * h` of them, if both
/// are positive and the byte count fits the machine.
pub fn new_buffers(size: &Rectangle) -> (r: Option<(Vec<u8>, Vec<Fixed>)>)
    ensures
        r.is_some() == (size.w > 0 && size.h > 0 && 4 * (size.w * size.h) <= usize::MAX),
        r.is_some() ==> r.unwrap().0@ == Seq::new((4 * (size.w * size.h)) as nat, |i: int| 0u8),
        r.is_some() ==> r.unwrap().1@ == Seq::new(
            (size.w * size.h) as nat,
            |i: int| Fixed::zero_spec(),
        ),
{
    if size.w <= 0 || size.h <= 0 {
        return None;
    }
    let w: u64 = size.w as u64;
    let h: u64 = size.h as u64;
    assert(w * h <= 0x3fff_ffff_0000_0001) by (nonlinear_arith)
        requires
            w <= 0x7fff_ffff,
            h <= 0x7fff_ffff,
    ;
    let pixels: u64 = w * h;
    if pixels > (usize::MAX as u64) / 4 {
        return None;
    }
    let n: usize = pixels as usize;
    let mut data: Vec<u8> = Vec::new();
    let mut depth: Vec<Fixed> = Vec::new();
    let mut i: usize = 0;
    while i < n
        invariant
            i <= n,
            4 * n <= usize::MAX,
            data@ == Seq::new((4 * i) as nat, |j: int| 0u8),
            depth@ == Seq::new(i as nat, |j: int| Fixed::zero_spec()),
        decreases n - i,
    {
        data.push(0);
        data.push(0);
        data.push(0);
        data.push(0);
        depth.push(Fixed::zero());
        i = i + 1;
        assert(data@ =~= Seq::new((4 * i) as nat, |j: int| 0u8));
        assert(depth@ =~= Seq::new(i as nat, |j: int| Fixed::zero_spec()));
    }
    Some((data, depth))
}

/// A pixel on the canvas has a place below `w * h`, and no two pixels share
/// a place.
pub proof fn lemma_pixel_places(size: Rectangle, cx: int, cy: int, dx: int, dy: int)
    requires
        on_canvas(size, cx, cy),
        on_canvas(size, dx, dy),
    ensures
        0 <= pixel_index(size, cx, cy) < size.w * size.h,
        pixel_index(size, cx, cy) == pixel_index(size, dx, dy) ==> cx == dx && cy == dy,
{
    let w = size.w as int;
    let h = size.h as int;
    let x = column_spec(size, cx);
    let y = row_spec(size, cy);
    let u = column_spec(size, dx);
    let v = row_spec(size, dy);
    assert(0 <= w * y && x + w * y < w * h) by (nonlinear_arith)
        requires
            0 <= x < w,
            0 <= y < h,
    ;
    assert(y < v ==> w * y + w <= w * v) by (nonlinear_arith)
        requires
            w > 0,
    ;
    assert(v < y ==> w * v + w <= w * y) by (nonlinear_arith)
        requires
            w > 0,
    ;
}

/// Setting a pixel keeps the length of the buffer and every byte but the
/// pixel's own four, which become the colour's three bytes and an alpha of 255.
pub proof fn lemma_put_pixel_effect(data: Seq<u8>, size: Rectangle, cx: int, cy: int, color: Color)
    ensures
        put_pixel_spec(data, size, cx, cy, color).len() == data.len(),
        !pixel_writable(data.len() as int, size, cx, cy) ==> put_pixel_spec(data, size, cx, cy, color)
            == data,
        pixel_writable(data.len() as int, size, cx, cy) ==> {
            let o = 4 * pixel_index(size, cx, cy);
            let after = put_pixel_spec(data, size, cx, cy, color);
            &&& 0 <= o
            &&& after[o] == channel_byte_spec(color.r)
            &&& after[o + 1] == channel_byte_spec(color.g)
            &&& after[o + 2] == channel_byte_spec(color.b)
            &&& after[o + 3] == 255u8
            &&& forall|i: int| 0 <= i < data.len() && !(o <= i < o + 4) ==> after[i] == data[i]
        },
{
    if on_canvas(size, cx, cy) {
        lemma_pixel_places(size, cx, cy, cx, cy);
    }
}

/// The four bytes that show `color`.
pub open spec fn color_bytes_spec(color: Color) -> Seq<u8> {
    seq![channel_byte_spec(color.r), channel_byte_spec(color.g), channel_byte_spec(color.b), 255u8]
}

/// Whether a pixel buffer has room for exactly the pixels of a canvas of
/// the given size.
pub open spec fn data_fits(data: Seq<u8>, size: Rectangle) -> bool {
    size.w > 0 && size.h > 0 && data.len() == 4 * (size.w * size.h)
}

/// The four bytes of the pixel `(x, y)`.
pub open spec fn pixel_bytes(data: Seq<u8>, size: Rectangle, x: int, y: int) -> Seq<u8> {
    data.subrange(4 * pixel_index(size, x, y), 4 * pixel_index(size, x, y) + 4)
}

/// Setting a pixel of the canvas gives that pixel the colour's bytes and
/// leaves the bytes of every other pixel as they were.
pub proof fn lemma_put_pixel_pixelwise(
    data: Seq<u8>,
    size: Rectangle,
    cx: int,
    cy: int,
    color: Color,
    px: int,
    py: int,
)
    requires
        data_fits(data, size),
        on_canvas(size, px, py),
    ensures
        data_fits(put_pixel_spec(data, size, cx, cy, color), size),
        pixel_bytes(put_pixel_spec(data, size, cx, cy, color), size, px, py) == if cx == px && cy
            == py {
            color_bytes_spec(color)
        } else {
            pixel_bytes(data, size, px, py)
        },
{
    let after = put_pixel_spec(data, size, cx, cy, color);
    let i = pixel_index(size, px, py);
    lemma_pixel_places(size, px, py, px, py);
    lemma_put_pixel_effect(data, size, cx, cy, color);
    if on_canvas(size, cx, cy) {
        lemma_pixel_places(size, cx, cy, px, py);
        if cx == px && cy == py {
            assert(after.subrange(4 * i, 4 * i + 4) =~= color_bytes_spec(color));
        } else {
            assert(after.subrange(4 * i, 4 * i + 4) =~= data.subrange(4 * i, 4 * i + 4));
        }
    }
}

} // verus!
