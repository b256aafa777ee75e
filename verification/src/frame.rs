//! The RGBA frame and its pixels.
//!
//! A frame is a flat run of bytes, four per pixel, stored row by row. Row 0 of
//! the frame is the top of the image, while the `y` coordinate taken by these
//! functions grows upwards: pixel `(x, y)` lives in row `height - 1 - y`.

use vstd::arithmetic::div_mod::{
    lemma_fundamental_div_mod, lemma_fundamental_div_mod_converse, lemma_mod_bound,
};
use vstd::prelude::*;

verus! {

/// The color that [`clear`] gives to every pixel.
#[derive(Clone, Copy, Debug, PartialEq, Eq)]
pub enum ClearColor {
    /// Black with no opacity: `(0, 0, 0, 0)`.
    TransparentBlack,
    /// Black with full opacity: `(0, 0, 0, 255)`.
    OpaqueBlack,
}

impl ClearColor {
    /// The four channels of the color, red first.
    pub open spec fn channels(self) -> Seq<u8> {
        match self {
            ClearColor::TransparentBlack => seq![0u8, 0u8, 0u8, 0u8],
            ClearColor::OpaqueBlack => seq![0u8, 0u8, 0u8, 255u8],
        }
    }

    /// The four channels of the color, red first.
    pub fn rgba(self) -> (color: [u8; 4])
        ensures
            color@ == self.channels(),
    {
        let color: [u8; 4] = match self {
            ClearColor::TransparentBlack => [0, 0, 0, 0],
            ClearColor::OpaqueBlack => [0, 0, 0, 255],
        };
        assert(color@ =~= self.channels());
        color
    }
}

/// Number of bytes in a frame of `width` by `height` pixels.
pub open spec fn frame_len(width: int, height: int) -> int {
    width * height * 4
}

/// Whether `(x, y)` names a pixel of a `width` by `height` frame.
pub open spec fn in_bounds(x: int, y: int, width: int, height: int) -> bool {
    0 <= x < width && 0 <= y < height
}

/// Index of the first byte of pixel `(x, y)`.
pub open spec fn pixel_offset(x: int, y: int, width: int, height: int) -> int {
    ((height - 1 - y) * width + x) * 4
}

/// The four bytes of pixel `(x, y)`.
pub open spec fn pixel_at(frame: Seq<u8>, x: int, y: int, width: int, height: int) -> Seq<u8> {
    frame.subrange(pixel_offset(x, y, width, height), pixel_offset(x, y, width, height) + 4)
}

/// The `x` coordinate of the pixel that holds byte `i`.
pub open spec fn byte_x(i: int, width: int) -> int {
    (i / 4) % width
}

/// The `y` coordinate of the pixel that holds byte `i`.
pub open spec fn byte_y(i: int, width: int, height: int) -> int {
    height - 1 - (i / 4) / width
}

/// The frame with pixel `(x, y)` set to `rgba`; the frame itself where
/// `(x, y)` lies outside it.
pub open spec fn put_pixel(
    frame: Seq<u8>,
    x: int,
    y: int,
    rgba: Seq<u8>,
    width: int,
    height: int,
) -> Seq<u8> {
    if in_bounds(x, y, width, height) {
        let at = pixel_offset(x, y, width, height);
        frame.update(at, rgba[0]).update(at + 1, rgba[1]).update(at + 2, rgba[2]).update(
            at + 3,
            rgba[3],
        )
    } else {
        frame
    }
}

/// A frame of `len` bytes in which every pixel is `color`.
pub open spec fn cleared(len: nat, color: ClearColor) -> Seq<u8> {
    Seq::new(len, |i: int| color.channels()[i % 4])
}

/// Every pixel of the frame lies inside it, and one pixel's bytes do not
/// reach into the next.
pub proof fn lemma_pixel_offset_bounds(x: int, y: int, width: int, height: int)
    requires
        in_bounds(x, y, width, height),
    ensures
        0 <= (height - 1 - y) * width,
        (height - 1 - y) * width + x < width * height,
        0 <= pixel_offset(x, y, width, height),
        pixel_offset(x, y, width, height) + 4 <= frame_len(width, height),
{
    let row = height - 1 - y;
    assert(0 <= row * width && row * width + width <= height * width) by (nonlinear_arith)
        requires
            0 <= row,
            row + 1 <= height,
            0 < width,
    ;
    assert(height * width == width * height) by (nonlinear_arith);
}

/// The pixel that holds a byte of the frame lies inside the frame, and the
/// byte is one of that pixel's four.
pub proof fn lemma_byte_pixel(i: int, width: int, height: int)
    requires
        0 <= width,
        0 <= height,
        0 <= i < frame_len(width, height),
    ensures
        in_bounds(byte_x(i, width), byte_y(i, width, height), width, height),
        i == pixel_offset(byte_x(i, width), byte_y(i, width, height), width, height) + i % 4,
{
    let cell = i / 4;
    assert(0 < width && cell < width * height) by (nonlinear_arith)
        requires
            0 <= width,
            0 <= height,
            0 <= 4 * cell < width * height * 4,
    ;
    lemma_fundamental_div_mod(cell, width);
    lemma_mod_bound(cell, width);
    let row = cell / width;
    let column = cell % width;
    assert(0 <= row < height) by (nonlinear_arith)
        requires
            0 < width,
            0 <= column < width,
            0 <= cell < width * height,
            cell == width * row + column,
    ;
    assert(width * row == row * width) by (nonlinear_arith);
}

/// A byte belongs to pixel `(x, y)` exactly when it is one of the four bytes
/// at that pixel's offset.
pub proof fn lemma_byte_of_pixel(i: int, x: int, y: int, width: int, height: int)
    requires
        0 <= i < frame_len(width, height),
        in_bounds(x, y, width, height),
    ensures
        (byte_x(i, width) == x && byte_y(i, width, height) == y) <==> (pixel_offset(
            x,
            y,
            width,
            height,
        ) <= i < pixel_offset(x, y, width, height) + 4),
{
    lemma_byte_pixel(i, width, height);
    let at = pixel_offset(x, y, width, height);
    if at <= i < at + 4 {
        let cell = (height - 1 - y) * width + x;
        assert(i / 4 == cell);
        lemma_fundamental_div_mod_converse(cell, width, height - 1 - y, x);
    }
}

/// Writes `rgba` into pixel `(x, y)` of the frame. A point outside the frame
/// is ignored.
pub fn set_pixel(frame: &mut [u8], x: u32, y: u32, rgba: [u8; 4], width: u32, height: u32)
    requires
        old(frame)@.len() == frame_len(width as int, height as int),
    ensures
        final(frame)@ == put_pixel(
            old(frame)@,
            x as int,
            y as int,
            rgba@,
            width as int,
            height as int,
        ),
        x < width && y < height ==> pixel_at(
            final(frame)@,
            x as int,
            y as int,
            width as int,
            height as int,
        ) == rgba@,
        x >= width || y >= height ==> final(frame)@ == old(frame)@,
        final(frame)@.len() == old(frame)@.len(),
{
    if x >= width || y >= height {
        return ;
    }
    proof {
        vstd::slice::axiom_spec_len(frame);
        lemma_pixel_offset_bounds(x as int, y as int, width as int, height as int);
    }
    let row: usize = (height - 1 - y) as usize;
    let index: usize = (row * (width as usize) + x as usize) * 4;
    frame[index] = rgba[0];
    frame[index + 1] = rgba[1];
    frame[index + 2] = rgba[2];
    frame[index + 3] = rgba[3];
    assert(pixel_at(frame@, x as int, y as int, width as int, height as int) =~= rgba@);
}

/// [`set_pixel`] with the two coordinates exchanged: writes `rgba` into pixel
/// `(y, x)`.
pub fn set_pixel_inverse(
    frame: &mut [u8],
    x: u32,
    y: u32,
    rgba: [u8; 4],
    width: u32,
    height: u32,
)
    requires
        old(frame)@.len() == frame_len(width as int, height as int),
    ensures
        final(frame)@ == put_pixel(
            old(frame)@,
            y as int,
            x as int,
            rgba@,
            width as int,
            height as int,
        ),
        final(frame)@.len() == old(frame)@.len(),
{
    set_pixel(frame, y, x, rgba, width, height);
}

/// Gives every pixel of the frame the color `color`.
pub fn clear(screen: &mut [u8], color: ClearColor)
    ensures
        final(screen)@ == cleared(old(screen)@.len(), color),
        forall|p: int|
            0 <= p && 4 * p + 4 <= old(screen)@.len() ==> #[trigger] final(screen)@.subrange(
                4 * p,
                4 * p + 4,
            ) == color.channels(),
{
    let channels: [u8; 4] = color.rgba();
    let len: usize = screen.len();
    let mut i: usize = 0;
    while i < len
        invariant
            i <= len,
            len == screen@.len(),
            screen@.len() == old(screen)@.len(),
            channels@ == color.channels(),
            forall|j: int| 0 <= j < i ==> screen@[j] == color.channels()[j % 4],
        decreases len - i,
    {
        screen[i] = channels[i % 4];
        i += 1;
    }
    assert(screen@ =~= cleared(old(screen)@.len(), color));
    assert forall|p: int| 0 <= p && 4 * p + 4 <= old(screen)@.len() implies #[trigger] screen@.subrange(
        4 * p,
        4 * p + 4,
    ) == color.channels() by {
        assert(screen@.subrange(4 * p, 4 * p + 4) =~= color.channels());
    }
}
/// What [`put_pixel`] does, told byte by byte.
pub proof fn lemma_put_pixel_bytes(
    frame: Seq<u8>,
    x: int,
    y: int,
    rgba: Seq<u8>,
    width: int,
    height: int,
    i: int,
)
    requires
        0 <= width,
        0 <= height,
        frame.len() == frame_len(width, height),
        0 <= i < frame.len(),
    ensures
        put_pixel(frame, x, y, rgba, width, height).len() == frame.len(),
        put_pixel(frame, x, y, rgba, width, height)[i] == if byte_x(i, width) == x && byte_y(
            i,
            width,
            height,
        ) == y {
            rgba[i % 4]
        } else {
            frame[i]
        },
{
    lemma_byte_pixel(i, width, height);
    if in_bounds(x, y, width, height) {
        lemma_pixel_offset_bounds(x, y, width, height);
        lemma_byte_of_pixel(i, x, y, width, height);
    }
}

/// What [`put_pixel`] does, told pixel by pixel: the pixel written reads back
/// as `rgba`, and every other pixel keeps its bytes.
pub proof fn lemma_put_pixel_pixels(
    frame: Seq<u8>,
    x: int,
    y: int,
    rgba: Seq<u8>,
    width: int,
    height: int,
    p: int,
    q: int,
)
    requires
        frame.len() == frame_len(width, height),
        rgba.len() == 4,
        in_bounds(p, q, width, height),
    ensures
        pixel_at(put_pixel(frame, x, y, rgba, width, height), p, q, width, height) == if p == x
            && q == y {
            rgba
        } else {
            pixel_at(frame, p, q, width, height)
        },
{
    let after = put_pixel(frame, x, y, rgba, width, height);
    let at = pixel_offset(p, q, width, height);
    lemma_pixel_offset_bounds(p, q, width, height);
    lemma_put_pixel_bytes(frame, x, y, rgba, width, height, at);
    lemma_put_pixel_bytes(frame, x, y, rgba, width, height, at + 1);
    lemma_put_pixel_bytes(frame, x, y, rgba, width, height, at + 2);
    lemma_put_pixel_bytes(frame, x, y, rgba, width, height, at + 3);
    lemma_byte_of_pixel(at, p, q, width, height);
    lemma_byte_of_pixel(at + 1, p, q, width, height);
    lemma_byte_of_pixel(at + 2, p, q, width, height);
    lemma_byte_of_pixel(at + 3, p, q, width, height);
    if p == x && q == y {
        assert(pixel_at(after, p, q, width, height) =~= rgba);
    } else {
        assert(pixel_at(after, p, q, width, height) =~= pixel_at(frame, p, q, width, height));
    }
}

/// Every pixel of a cleared frame reads back as the clear color.
pub proof fn lemma_cleared_pixels(color: ClearColor, width: int, height: int, x: int, y: int)
    requires
        in_bounds(x, y, width, height),
    ensures
        pixel_at(cleared(frame_len(width, height) as nat, color), x, y, width, height)
            == color.channels(),
{
    lemma_pixel_offset_bounds(x, y, width, height);
    assert(pixel_at(cleared(frame_len(width, height) as nat, color), x, y, width, height)
        =~= color.channels());
}

} // verus!
