use blobgen::generate_grayscale;
use blobgen::grayscale;
use noise::NoiseFn;
use noise::Simplex;

/// The per-pixel luminance of the noise texture: normalize the pixel
/// coordinates into field space, query the field at a fixed z offset, and
/// remap the result from [-1, 1] to a byte.
fn sample(field: &Simplex, x: u32, y: u32, size: f32, magnitude: f32) -> u8 {
    let nx = ((x as f32 / size) * magnitude) as f64;
    let ny = ((y as f32 / size) * magnitude) as f64;
    (((field.get([nx, ny, 10.14]) + 1.0) * 0.5) * 255.0).round() as u8
}

#[test]
fn grayscale_replicates_luminance() {
    assert_eq!(grayscale(7), [7, 7, 7, 7]);
    assert_eq!(grayscale(0), [0, 0, 0, 0]);
    assert_eq!(grayscale(255), [255, 255, 255, 255]);
}

#[test]
fn grayscale_buffer_channels_equal() {
    let lum = |x: u32, y: u32| ((x * 31 + y * 17) % 256) as u8;
    let buf = generate_grayscale(8, &lum);
    assert_eq!(buf.bytes.len(), 8 * 8 * 4);
    for y in 0..8u32 {
        for x in 0..8u32 {
            let off: usize = 4 * (y as usize * 8 + x as usize);
            let px = &buf.bytes[off..off + 4];
            let v: u8 = lum(x, y);
            assert_eq!(px, &[v, v, v, v]);
        }
    }
}

#[test]
fn sample_is_deterministic() {
    // The same seeded field queried twice with the same inputs returns the
    // identical byte.
    let field = Simplex::new(1234);
    for y in 0..6u32 {
        for x in 0..6u32 {
            let a: u8 = sample(&field, x, y, 6.0, 100.5);
            let b: u8 = sample(&field, x, y, 6.0, 100.5);
            assert_eq!(a, b);
        }
    }
    // A second field with the same seed agrees too.
    let other = Simplex::new(1234);
    assert_eq!(
        sample(&field, 3, 2, 6.0, 100.5),
        sample(&other, 3, 2, 6.0, 100.5)
    );
}

#[test]
fn texture_end_to_end() {
    // Deterministically seeded noise field, size 4.0: a 4 by 4 buffer of 64
    // bytes where every 4-byte group has equal R, G, B and A.
    let field = Simplex::new(42);
    let size: f32 = 4.0;
    let magnitude: f32 = 100.5;
    let side: u32 = size.round() as u32;
    assert_eq!(side, 4);
    let lum = |x: u32, y: u32| sample(&field, x, y, size, magnitude);
    let buf = generate_grayscale(side, &lum);
    assert_eq!(buf.width, 4);
    assert_eq!(buf.height, 4);
    assert_eq!(buf.bytes.len(), 64);
    for px in buf.bytes.chunks(4) {
        assert_eq!(px[0], px[1]);
        assert_eq!(px[1], px[2]);
        assert_eq!(px[2], px[3]);
    }
    // Generating again from an equally seeded field gives the same bytes.
    let field2 = Simplex::new(42);
    let lum2 = |x: u32, y: u32| sample(&field2, x, y, size, magnitude);
    let buf2 = generate_grayscale(side, &lum2);
    assert_eq!(buf.bytes, buf2.bytes);
}
