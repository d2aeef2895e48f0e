use screen_composer::{PixelBuffer, Rgba};

fn numbered(width: u32, height: u32) -> PixelBuffer {
    let mut data = Vec::new();
    for i in 0..(width * height) {
        data.extend_from_slice(&[i as u8, (i * 2) as u8, (i * 3) as u8, 255]);
    }
    PixelBuffer::from_raw(width, height, data).unwrap()
}

#[test]
fn new_buffer_is_transparent_black() {
    let buffer = PixelBuffer::new(3, 2);
    assert_eq!((buffer.width(), buffer.height()), (3, 2));
    assert_eq!(buffer.as_raw(), &vec![0u8; 24]);
    assert_eq!(buffer.get_pixel(2, 1), Rgba { r: 0, g: 0, b: 0, a: 0 });
}

#[test]
fn from_raw_checks_the_length() {
    assert!(PixelBuffer::from_raw(2, 2, vec![0; 16]).is_some());
    assert!(PixelBuffer::from_raw(2, 2, vec![0; 15]).is_none());
    assert!(PixelBuffer::from_raw(2, 2, vec![0; 17]).is_none());
}

#[test]
fn from_raw_refuses_empty_sizes() {
    assert!(PixelBuffer::from_raw(0, 0, Vec::new()).is_none());
    assert!(PixelBuffer::from_raw(0, 4, Vec::new()).is_none());
    assert!(PixelBuffer::from_raw(4, 0, Vec::new()).is_none());
}

#[test]
fn pixels_are_row_major() {
    let buffer = numbered(3, 2);
    assert_eq!(buffer.get_pixel(0, 0), Rgba { r: 0, g: 0, b: 0, a: 255 });
    assert_eq!(buffer.get_pixel(2, 0), Rgba { r: 2, g: 4, b: 6, a: 255 });
    assert_eq!(buffer.get_pixel(0, 1), Rgba { r: 3, g: 6, b: 9, a: 255 });
    assert_eq!(buffer.get_pixel(2, 1), Rgba { r: 5, g: 10, b: 15, a: 255 });
}

#[test]
fn put_pixel_changes_one_pixel() {
    let mut buffer = numbered(3, 2);
    let before = buffer.clone();
    let p = Rgba { r: 200, g: 201, b: 202, a: 203 };
    buffer.put_pixel(1, 1, p);
    for y in 0..2 {
        for x in 0..3 {
            let expected = if (x, y) == (1, 1) { p } else { before.get_pixel(x, y) };
            assert_eq!(buffer.get_pixel(x, y), expected);
        }
    }
    assert_eq!(&buffer.as_raw()[16..20], &[200, 201, 202, 203]);
}

#[test]
fn into_raw_gives_the_bytes_back() {
    let data: Vec<u8> = (0..32).collect();
    let buffer = PixelBuffer::from_raw(4, 2, data.clone()).unwrap();
    assert_eq!(buffer.into_raw(), data);
}

#[test]
fn blit_inside() {
    let mut canvas = PixelBuffer::new(4, 3);
    let source = numbered(2, 2);
    canvas.blit(&source, 1, 1);
    for y in 0..3u32 {
        for x in 0..4u32 {
            let expected = if (1..3).contains(&x) && (1..3).contains(&y) {
                source.get_pixel(x - 1, y - 1)
            } else {
                Rgba { r: 0, g: 0, b: 0, a: 0 }
            };
            assert_eq!(canvas.get_pixel(x, y), expected);
        }
    }
}

#[test]
fn blit_clips_at_the_edges() {
    let mut canvas = PixelBuffer::new(3, 3);
    let source = numbered(3, 3);
    canvas.blit(&source, 2, 1);
    assert_eq!(canvas.get_pixel(2, 1), source.get_pixel(0, 0));
    assert_eq!(canvas.get_pixel(2, 2), source.get_pixel(0, 1));
    assert_eq!(canvas.get_pixel(1, 1), Rgba { r: 0, g: 0, b: 0, a: 0 });
    assert_eq!(canvas.get_pixel(2, 0), Rgba { r: 0, g: 0, b: 0, a: 0 });
}

#[test]
fn blit_far_outside_changes_nothing() {
    let mut canvas = numbered(2, 2);
    let before = canvas.clone();
    canvas.blit(&numbered(2, 2), u32::MAX, u32::MAX);
    assert_eq!(canvas, before);
    canvas.blit(&numbered(2, 2), 2, 0);
    assert_eq!(canvas, before);
}

#[test]
fn crop_inside() {
    let source = numbered(4, 3);
    let cut = source.crop(1, 1, 2, 2).unwrap();
    assert_eq!((cut.width(), cut.height()), (2, 2));
    assert_eq!(cut.get_pixel(0, 0), source.get_pixel(1, 1));
    assert_eq!(cut.get_pixel(1, 0), source.get_pixel(2, 1));
    assert_eq!(cut.get_pixel(0, 1), source.get_pixel(1, 2));
    assert_eq!(cut.get_pixel(1, 1), source.get_pixel(2, 2));
}

#[test]
fn crop_is_clipped_to_the_buffer() {
    let source = numbered(4, 3);
    let cut = source.crop(3, 2, 10, 10).unwrap();
    assert_eq!((cut.width(), cut.height()), (1, 1));
    assert_eq!(cut.get_pixel(0, 0), source.get_pixel(3, 2));
    let whole = source.crop(0, 0, u32::MAX, u32::MAX).unwrap();
    assert_eq!(whole, source);
}

#[test]
fn crop_with_nothing_left() {
    let source = numbered(4, 3);
    assert!(source.crop(4, 0, 1, 1).is_none());
    assert!(source.crop(0, 3, 1, 1).is_none());
    assert!(source.crop(0, 0, 0, 1).is_none());
    assert!(source.crop(0, 0, 1, 0).is_none());
    assert!(source.crop(u32::MAX, u32::MAX, 5, 5).is_none());
}

#[test]
fn crop_agrees_with_the_image_crate() {
    let source = numbered(5, 4);
    let reference = image::RgbaImage::from_raw(5, 4, source.as_raw().clone()).unwrap();
    let expected = image::DynamicImage::ImageRgba8(reference).crop_imm(2, 1, 7, 2).to_rgba8();
    let cut = source.crop(2, 1, 7, 2).unwrap();
    assert_eq!((cut.width(), cut.height()), (expected.width(), expected.height()));
    assert_eq!(cut.into_raw(), expected.into_raw());
}

#[test]
fn clone_is_equal() {
    let source = numbered(3, 3);
    let copy = source.clone();
    assert_eq!(copy, source);
    assert_eq!(copy.as_raw(), source.as_raw());
}
