use blobgen::PixelFormat;
use blobgen::generate;
use std::cell::RefCell;

#[test]
fn buffer_sizing_fifty() {
    let buf = generate(50, |_x: u32, _y: u32| [1u8, 2, 3, 4]);
    assert_eq!(buf.width, 50);
    assert_eq!(buf.height, 50);
    assert_eq!(buf.bytes.len(), 10000);
    assert_eq!(buf.bytes.len() / 4, 2500);
    assert!(matches!(buf.format, PixelFormat::Rgba8));
}

#[test]
fn buffer_sizing_rounds_to_nearest() {
    // A requested size of 50.6 rounds to a 51 by 51 grid.
    let side: u32 = (50.6f32).round() as u32;
    assert_eq!(side, 51);
    let buf = generate(side, |_x: u32, _y: u32| [0u8, 0, 0, 255]);
    assert_eq!(buf.bytes.len(), 51 * 51 * 4);
    // 50.0 stays a 50 by 50 grid.
    let side_even: u32 = (50.0f32).round() as u32;
    assert_eq!(side_even, 50);
}

#[test]
fn callback_output_lands_in_pixel_slot() {
    let buf = generate(3, |x: u32, y: u32| [x as u8, y as u8, 7, 255]);
    for y in 0..3usize {
        for x in 0..3usize {
            let off: usize = 4 * (y * 3 + x);
            assert_eq!(&buf.bytes[off..off + 4], &[x as u8, y as u8, 7, 255]);
        }
    }
}

#[test]
fn every_pixel_visited_once() {
    // A counting callback shows each coordinate pair is asked for exactly once.
    let calls: RefCell<Vec<(u32, u32)>> = RefCell::new(Vec::new());
    let buf = generate(4, |x: u32, y: u32| {
        calls.borrow_mut().push((x, y));
        [0u8, 0, 0, 255]
    });
    let mut seen: Vec<u32> = Vec::new();
    let mut recorded: Vec<(u32, u32)> = calls.into_inner();
    recorded.sort();
    for (x, y) in recorded {
        seen.push(y * 4 + x);
    }
    seen.sort();
    let expected: Vec<u32> = (0..16u32).collect();
    assert_eq!(seen, expected);
    assert_eq!(buf.bytes.len(), 64);
}

#[test]
fn zero_size_buffer_is_empty() {
    let buf = generate(0, |_x: u32, _y: u32| [9u8, 9, 9, 9]);
    assert_eq!(buf.width, 0);
    assert_eq!(buf.height, 0);
    assert!(buf.bytes.is_empty());
}
