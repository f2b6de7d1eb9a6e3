//! Square RGBA pixel buffers filled by a per-pixel coloring callback.
//!
//! `generate` is the general-purpose raster primitive: it visits every cell
//! of a `size` by `size` grid exactly once and writes the four channel bytes
//! the callback returns for that cell into the pixel's slot of a row-major
//! byte buffer. It is independent of any particular coloring function.

use vstd::prelude::*;

verus! {

/// Pixel encoding of a buffer: four unsigned byte channels per pixel, in the
/// order R, G, B, A.
#[derive(Clone, Copy, Debug, PartialEq, Eq, Structural)]
pub enum PixelFormat {
    Rgba8,
}

/// A square 2D grid of pixels, row-major, four bytes (R, G, B, A) per pixel.
pub struct PixelBuffer {
    /// Number of pixel columns.
    pub width: u32,
    /// Number of pixel rows.
    pub height: u32,
    /// How the bytes of one pixel are to be read.
    pub format: PixelFormat,
    /// `width * height * 4` channel bytes, row by row.
    pub bytes: Vec<u8>,
}

/// The four channel bytes of the pixel at column `x`, row `y` of a row-major
/// byte grid `bytes` whose rows are `width` pixels long.
pub open spec fn pixel_of(bytes: Seq<u8>, width: int, x: int, y: int) -> Seq<u8> {
    bytes.subrange(4 * (y * width + x), 4 * (y * width + x) + 4)
}

/// The pixel at `(x, y)` of the grid holds four bytes that `callback` can
/// return for the coordinate pair `(x, y)`.
pub open spec fn pixel_matches<F: Fn(u32, u32) -> [u8; 4]>(
    callback: F,
    bytes: Seq<u8>,
    width: int,
    x: int,
    y: int,
) -> bool {
    exists|px: [u8; 4]|
        call_ensures(callback, (x as u32, y as u32), px) && pixel_of(bytes, width, x, y) == px@
}

impl PixelBuffer {
    /// The byte length matches the dimensions: four bytes per pixel.
    pub open spec fn wf(self) -> bool {
        self.bytes@.len() == self.width as int * self.height as int * 4
    }

    /// The four channel bytes of the pixel at column `x`, row `y`.
    pub open spec fn pixel(self, x: int, y: int) -> Seq<u8> {
        pixel_of(self.bytes@, self.width as int, x, y)
    }
}

/// `buf` is a buffer that the raster builder can return for `size` and
/// `callback`: a square `size` by `size` RGBA8 buffer in which every pixel
/// holds four bytes the callback can return for that pixel's coordinates.
pub open spec fn generated_by<F: Fn(u32, u32) -> [u8; 4]>(
    callback: F,
    size: u32,
    buf: PixelBuffer,
) -> bool {
    &&& buf.width == size
    &&& buf.height == size
    &&& buf.format == PixelFormat::Rgba8
    &&& buf.wf()
    &&& forall|x: int, y: int|
        0 <= x < size && 0 <= y < size ==> #[trigger] pixel_matches(
            callback,
            buf.bytes@,
            size as int,
            x,
            y,
        )
}

/// In a row-major grid with rows of width `w`, the cell `(x2, y2)` lies
/// strictly before the cell `(x, y)` whenever its row is earlier, or its row
/// is the same and its column is earlier.
proof fn lemma_row_major_offset(w: int, x: int, y: int, x2: int, y2: int)
    requires
        0 <= x <= w,
        0 <= y,
        0 <= x2 < w,
        0 <= y2,
        y2 < y || (y2 == y && x2 < x),
    ensures
        0 <= y2 * w + x2,
        y2 * w + x2 < y * w + x,
{
    assert(0 <= y2 * w) by (nonlinear_arith)
        requires
            0 <= y2,
            0 <= w,
    ;
    if y2 < y {
        assert((y2 + 1) * w <= y * w) by (nonlinear_arith)
            requires
                y2 + 1 <= y,
                0 <= w,
        ;
        assert((y2 + 1) * w == y2 * w + w) by (nonlinear_arith);
    }
}

/// Fills a `size` by `size` RGBA pixel buffer by invoking `callback` once
/// for every coordinate pair `(x, y)` of the grid and writing the four bytes
/// it returns into that pixel's slot.
pub fn generate<F: Fn(u32, u32) -> [u8; 4]>(size: u32, callback: F) -> (buf: PixelBuffer)
    requires
        size as int * size as int * 4 <= usize::MAX as int,
        forall|x: u32, y: u32| x < size && y < size ==> call_requires(callback, (x, y)),
    ensures
        generated_by(callback, size, buf),
{
    let mut bytes: Vec<u8> = Vec::new();
    let mut y: u32 = 0;
    while y < size
        invariant
            y <= size,
            bytes@.len() == y as int * size as int * 4,
            size as int * size as int * 4 <= usize::MAX as int,
            forall|x2: u32, y2: u32| x2 < size && y2 < size ==> call_requires(callback, (x2, y2)),
            forall|xx: int, yy: int|
                0 <= xx < size && 0 <= yy < y ==> #[trigger] pixel_matches(
                    callback,
                    bytes@,
                    size as int,
                    xx,
                    yy,
                ),
        decreases size - y,
    {
        let mut x: u32 = 0;
        while x < size
            invariant
                x <= size,
                y < size,
                bytes@.len() == y as int * size as int * 4 + x as int * 4,
                size as int * size as int * 4 <= usize::MAX as int,
                forall|x2: u32, y2: u32|
                    x2 < size && y2 < size ==> call_requires(callback, (x2, y2)),
                forall|xx: int, yy: int|
                    0 <= xx < size && (0 <= yy < y || (yy == y && 0 <= xx < x))
                        ==> #[trigger] pixel_matches(callback, bytes@, size as int, xx, yy),
            decreases size - x,
        {
            let px = callback(x, y);
            let ghost prev = bytes@;
            bytes.push(px[0]);
            bytes.push(px[1]);
            bytes.push(px[2]);
            bytes.push(px[3]);
            proof {
                assert(prev.len() == 4 * (y as int * size as int + x as int));
                assert forall|xx: int, yy: int|
                    0 <= xx < size && (0 <= yy < y || (yy == y && 0 <= xx < x + 1))
                        implies #[trigger] pixel_matches(
                    callback,
                    bytes@,
                    size as int,
                    xx,
                    yy,
                ) by {
                    if yy == y && xx == x {
                        assert(pixel_of(bytes@, size as int, xx, yy) =~= px@);
                        assert(call_ensures(callback, (x, y), px));
                    } else {
                        assert(pixel_matches(callback, prev, size as int, xx, yy));
                        let px0 = choose|px2: [u8; 4]|
                            call_ensures(callback, (xx as u32, yy as u32), px2) && pixel_of(
                                prev,
                                size as int,
                                xx,
                                yy,
                            ) == px2@;
                        lemma_row_major_offset(size as int, x as int, y as int, xx, yy);
                        assert(pixel_of(bytes@, size as int, xx, yy) =~= pixel_of(
                            prev,
                            size as int,
                            xx,
                            yy,
                        ));
                        assert(call_ensures(callback, (xx as u32, yy as u32), px0) && pixel_of(
                            bytes@,
                            size as int,
                            xx,
                            yy,
                        ) == px0@);
                    }
                }
            }
            x = x + 1;
        }
        proof {
            assert((y as int + 1) * size as int == y as int * size as int + size as int)
                by (nonlinear_arith);
        }
        y = y + 1;
    }
    PixelBuffer { width: size, height: size, format: PixelFormat::Rgba8, bytes }
}

/// Law: the raster builder is deterministic up to its callback. When the
/// callback can return at most one value for each coordinate pair, any two
/// buffers built from it for the same size hold identical bytes.
pub proof fn lemma_generate_deterministic<F: Fn(u32, u32) -> [u8; 4]>(
    callback: F,
    size: u32,
    buf1: PixelBuffer,
    buf2: PixelBuffer,
)
    requires
        generated_by(callback, size, buf1),
        generated_by(callback, size, buf2),
        forall|a: (u32, u32), r1: [u8; 4], r2: [u8; 4]|
            #[trigger] call_ensures(callback, a, r1) && #[trigger] call_ensures(callback, a, r2)
                ==> r1 == r2,
    ensures
        buf1.bytes@ == buf2.bytes@,
{
    let w: int = size as int;
    assert forall|x: int, y: int| 0 <= x < size && 0 <= y < size implies pixel_of(
        buf1.bytes@,
        w,
        x,
        y,
    ) == pixel_of(buf2.bytes@, w, x, y) by {
        assert(pixel_matches(callback, buf1.bytes@, w, x, y));
        assert(pixel_matches(callback, buf2.bytes@, w, x, y));
        let px1 = choose|px: [u8; 4]|
            #[trigger] call_ensures(callback, (x as u32, y as u32), px) && pixel_of(
                buf1.bytes@,
                w,
                x,
                y,
            ) == px@;
        let px2 = choose|px: [u8; 4]|
            #[trigger] call_ensures(callback, (x as u32, y as u32), px) && pixel_of(
                buf2.bytes@,
                w,
                x,
                y,
            ) == px@;
        assert(px1 == px2);
    }
    assert forall|k: int| 0 <= k < buf1.bytes@.len() implies buf1.bytes@[k] == buf2.bytes@[k] by {
        if w == 0 {
            assert(w * w * 4 == 0);
            assert(false);
        }
        let m: int = k / 4;
        let j: int = k % 4;
        vstd::arithmetic::div_mod::lemma_fundamental_div_mod(k, 4);
        vstd::arithmetic::div_mod::lemma_mod_bound(k, 4);
        assert(0 <= m && m < w * w) by (nonlinear_arith)
            requires
                k == 4 * m + j,
                0 <= j < 4,
                0 <= k,
                k < w * w * 4,
        ;
        let y: int = m / w;
        let x: int = m % w;
        vstd::arithmetic::div_mod::lemma_fundamental_div_mod(m, w);
        vstd::arithmetic::div_mod::lemma_mod_bound(m, w);
        assert(0 <= y && y < w) by (nonlinear_arith)
            requires
                m == w * y + x,
                0 <= x < w,
                0 <= m,
                m < w * w,
        ;
        assert(pixel_of(buf1.bytes@, w, x, y) == pixel_of(buf2.bytes@, w, x, y));
        assert(4 * (y * w + x) + j == k) by (nonlinear_arith)
            requires
                k == 4 * m + j,
                m == w * y + x,
        ;
        assert(buf1.bytes@[k] == pixel_of(buf1.bytes@, w, x, y)[j]);
        assert(buf2.bytes@[k] == pixel_of(buf2.bytes@, w, x, y)[j]);
    }
    assert(buf1.bytes@ =~= buf2.bytes@);
}

} // verus!
