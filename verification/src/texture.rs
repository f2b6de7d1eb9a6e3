//! Grayscale shading: turning a scalar per-pixel field into a raster buffer.
//!
//! The texture of the generated polygon is a grayscale image: one luminance
//! byte per pixel, replicated into all four channels so the material reads as
//! a brightness map rather than a color image. The luminance field itself
//! (the noise sampler) is any callback from grid coordinates to a byte.

use vstd::prelude::*;
use crate::raster::PixelBuffer;
use crate::raster::PixelFormat;
use crate::raster::generate;
use crate::raster::pixel_matches;
use crate::raster::pixel_of;

verus! {

/// The four channel bytes of a grayscale pixel: the luminance byte `v`
/// replicated into R, G, B and A.
pub open spec fn gray_pixel(v: u8) -> Seq<u8> {
    seq![v, v, v, v]
}

/// Replicates one luminance byte into all four channels of a pixel, so that
/// R == G == B == A.
pub fn grayscale(v: u8) -> (px: [u8; 4])
    ensures
        px@ == gray_pixel(v),
{
    let px: [u8; 4] = [v, v, v, v];
    proof {
        assert(px@ =~= gray_pixel(v));
    }
    px
}

/// The pixel at `(x, y)` of the grid is the grayscale pixel of a luminance
/// byte that `lum` can return for the coordinate pair `(x, y)`.
pub open spec fn pixel_is_gray_of<F: Fn(u32, u32) -> u8>(
    lum: F,
    bytes: Seq<u8>,
    width: int,
    x: int,
    y: int,
) -> bool {
    exists|v: u8|
        call_ensures(lum, (x as u32, y as u32), v) && pixel_of(bytes, width, x, y) == gray_pixel(v)
}

/// Fills a `size` by `size` buffer in which every pixel is the grayscale
/// pixel of the luminance byte `lum` returns for its coordinates: the
/// composition of the raster builder with a grayscale coloring.
pub fn generate_grayscale<F: Fn(u32, u32) -> u8>(size: u32, lum: &F) -> (buf: PixelBuffer)
    requires
        size as int * size as int * 4 <= usize::MAX as int,
        forall|x: u32, y: u32| x < size && y < size ==> call_requires(lum, (x, y)),
    ensures
        buf.width == size,
        buf.height == size,
        buf.format == PixelFormat::Rgba8,
        buf.wf(),
        forall|x: int, y: int|
            0 <= x < size && 0 <= y < size ==> #[trigger] pixel_is_gray_of(
                lum,
                buf.bytes@,
                size as int,
                x,
                y,
            ),
{
    let cb = |x: u32, y: u32| -> (px: [u8; 4])
        requires
            x < size && y < size,
            call_requires(lum, (x, y)),
        ensures
            exists|v: u8| call_ensures(lum, (x, y), v) && px@ == gray_pixel(v),
        {
            let v = lum(x, y);
            let px = grayscale(v);
            proof {
                assert(call_ensures(lum, (x, y), v) && px@ == gray_pixel(v));
            }
            px
        };
    let buf = generate(size, cb);
    proof {
        assert forall|x: int, y: int|
            0 <= x < size && 0 <= y < size implies #[trigger] pixel_is_gray_of(
            lum,
            buf.bytes@,
            size as int,
            x,
            y,
        ) by {
            assert(pixel_matches(cb, buf.bytes@, size as int, x, y));
            let px = choose|px: [u8; 4]|
                #[trigger] call_ensures(cb, (x as u32, y as u32), px) && pixel_of(
                    buf.bytes@,
                    size as int,
                    x,
                    y,
                ) == px@;
            let v = choose|v: u8| call_ensures(lum, (x as u32, y as u32), v) && px@ == gray_pixel(v);
            assert(call_ensures(lum, (x as u32, y as u32), v) && pixel_of(
                buf.bytes@,
                size as int,
                x,
                y,
            ) == gray_pixel(v));
        }
    }
    buf
}

} // verus!
