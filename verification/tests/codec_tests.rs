use screen_composer::{base64_to_image, image_to_base64, CodecError, PixelBuffer, Rgba};

const TWO_BY_TWO: &str =
    "iVBORw0KGgoAAAANSUhEUgAAAAIAAAACCAYAAABytg0kAAAAF0lEQVR4nGP4z8DwHwgbGIC0A5eInAYAN+kFIYC3EkoAAAAASUVORK5CYII=";
const ONE_RGB_PIXEL: &str =
    "iVBORw0KGgoAAAANSUhEUgAAAAEAAAABCAIAAACQd1PeAAAADElEQVR4nGNg5+AEAAAyABmP5B0GAAAAAElFTkSuQmCC";

fn sample(width: u32, height: u32) -> PixelBuffer {
    let mut buffer = PixelBuffer::new(width, height);
    for y in 0..height {
        for x in 0..width {
            let p = Rgba {
                r: (x * 17 % 256) as u8,
                g: (y * 29 % 256) as u8,
                b: ((x + y) * 3 % 256) as u8,
                a: (255 - (x * y) % 200) as u8,
            };
            buffer.put_pixel(x, y, p);
        }
    }
    buffer
}

#[test]
fn known_png_is_read() {
    let image = base64_to_image(TWO_BY_TWO).unwrap();
    assert_eq!((image.width(), image.height()), (2, 2));
    assert_eq!(
        image.as_raw(),
        &vec![255, 0, 0, 255, 0, 255, 0, 128, 0, 0, 255, 64, 10, 20, 30, 40]
    );
    assert_eq!(image.get_pixel(1, 1), Rgba { r: 10, g: 20, b: 30, a: 40 });
}

#[test]
fn data_url_prefix_is_skipped() {
    let plain = base64_to_image(TWO_BY_TWO).unwrap();
    let url = format!("data:image/png;base64,{}", TWO_BY_TWO);
    assert_eq!(base64_to_image(&url).unwrap(), plain);
    let other = format!("data:image/jpeg;charset=x,{}", TWO_BY_TWO);
    assert_eq!(base64_to_image(&other).unwrap(), plain);
}

#[test]
fn only_the_second_field_of_a_data_url_is_read() {
    let plain = base64_to_image(TWO_BY_TWO).unwrap();
    let url = format!("data:image/png;base64,{},trailing,fields", TWO_BY_TWO);
    assert_eq!(base64_to_image(&url).unwrap(), plain);
}

#[test]
fn opaque_images_get_an_alpha_channel() {
    let image = base64_to_image(ONE_RGB_PIXEL).unwrap();
    assert_eq!((image.width(), image.height()), (1, 1));
    assert_eq!(image.get_pixel(0, 0), Rgba { r: 7, g: 8, b: 9, a: 255 });
}

#[test]
fn data_url_without_comma_is_invalid() {
    assert_eq!(base64_to_image("data:image/png;base64"), Err(CodecError::InvalidDataUrl));
    assert_eq!(base64_to_image("data:image/"), Err(CodecError::InvalidDataUrl));
}

#[test]
fn bad_base64_is_reported() {
    assert!(matches!(base64_to_image("not base64!"), Err(CodecError::Base64(_))));
    assert!(matches!(base64_to_image("data:image/png;base64,@@@@"), Err(CodecError::Base64(_))));
    assert!(matches!(base64_to_image("data:text/plain,aGVsbG8="), Err(CodecError::Base64(_))));
}

#[test]
fn bytes_that_are_no_image_are_reported() {
    assert!(matches!(base64_to_image("aGVsbG8="), Err(CodecError::Image(_))));
    assert!(matches!(base64_to_image(""), Err(CodecError::Image(_))));
    assert!(matches!(base64_to_image("data:image/png;base64,"), Err(CodecError::Image(_))));
    assert!(matches!(base64_to_image("data:image/png;base64,,aGVsbG8="), Err(CodecError::Image(_))));
}

#[test]
fn image_is_written_as_png_data_url() {
    let image = sample(5, 3);
    let text = image_to_base64(&image).unwrap();
    let payload = text.strip_prefix("data:image/png;base64,").unwrap();
    assert!(payload.starts_with("iVBORw0KGgo"));
    assert!(payload.len() % 4 == 0);
    assert!(payload.bytes().all(|b| b.is_ascii_alphanumeric() || b == b'+' || b == b'/' || b == b'='));
    assert_ne!(payload.as_bytes(), image.as_raw().as_slice());
}

#[test]
fn written_image_reads_back() {
    for (width, height) in [(1, 1), (5, 3), (64, 48)] {
        let image = sample(width, height);
        let text = image_to_base64(&image).unwrap();
        assert_eq!(base64_to_image(&text).unwrap(), image);
        let payload = text.strip_prefix("data:image/png;base64,").unwrap();
        assert_eq!(base64_to_image(payload).unwrap(), image);
    }
}

#[test]
fn writing_agrees_with_the_codecs() {
    let image = sample(4, 4);
    let text = image_to_base64(&image).unwrap();
    let reference = image::RgbaImage::from_raw(4, 4, image.as_raw().clone()).unwrap();
    let mut png = Vec::new();
    image::DynamicImage::ImageRgba8(reference)
        .write_to(&mut std::io::Cursor::new(&mut png), image::ImageFormat::Png)
        .unwrap();
    let expected = format!(
        "data:image/png;base64,{}",
        base64::Engine::encode(&base64::engine::general_purpose::STANDARD, &png)
    );
    assert_eq!(text, expected);
}
