use screen_composer::{
    base64_to_image, compose_images, compose_screenshots, image_to_base64, CaptureRegion,
    CodecError, ComposeError, PixelBuffer, RequestError, Rgba, ScreenshotData,
};
use screen_composer::store::{decode_screenshots, find_screenshot, select_screenshots};

fn solid(width: u32, height: u32, shade: u8) -> PixelBuffer {
    let mut buffer = PixelBuffer::new(width, height);
    for y in 0..height {
        for x in 0..width {
            buffer.put_pixel(x, y, Rgba { r: shade, g: shade, b: shade, a: 255 });
        }
    }
    buffer
}

fn region() -> CaptureRegion {
    CaptureRegion { x: -3, y: 4, width: 50, height: 60 }
}

fn stored(id: &str, image: &PixelBuffer) -> ScreenshotData {
    ScreenshotData::record(id.to_string(), 1_700_000_000, image, region()).unwrap()
}

fn broken(id: &str, text: &str) -> ScreenshotData {
    ScreenshotData {
        id: id.to_string(),
        timestamp: 0,
        base64_data: text.to_string(),
        width: 1,
        height: 1,
        region: region(),
    }
}

fn ids(names: &[&str]) -> Vec<String> {
    names.iter().map(|name| name.to_string()).collect()
}

#[test]
fn record_holds_the_image_and_its_size() {
    let image = solid(6, 4, 77);
    let data = ScreenshotData::record("abc".to_string(), 42, &image, region()).unwrap();
    assert_eq!(data.id, "abc");
    assert_eq!(data.timestamp, 42);
    assert_eq!((data.width, data.height), (6, 4));
    assert_eq!(data.region, region());
    assert_eq!(data.base64_data, image_to_base64(&image).unwrap());
    assert_eq!(base64_to_image(&data.base64_data).unwrap(), image);
}

#[test]
fn screenshots_are_found_by_identifier() {
    let store = vec![stored("a", &solid(1, 1, 1)), stored("b", &solid(1, 1, 2)), stored("a", &solid(1, 1, 3))];
    assert_eq!(find_screenshot(&store, &"a".to_string()), Some(0));
    assert_eq!(find_screenshot(&store, &"b".to_string()), Some(1));
    assert_eq!(find_screenshot(&store, &"c".to_string()), None);
    assert_eq!(find_screenshot(&Vec::new(), &"a".to_string()), None);
}

#[test]
fn selection_follows_the_order_asked() {
    let store = vec![stored("a", &solid(1, 1, 1)), stored("b", &solid(1, 1, 2)), stored("c", &solid(1, 1, 3))];
    assert_eq!(select_screenshots(&store, &ids(&["c", "a"])), vec![2, 0]);
    assert_eq!(select_screenshots(&store, &ids(&["b", "missing", "b", "a"])), vec![1, 1, 0]);
    assert_eq!(select_screenshots(&store, &ids(&["x", "y"])), Vec::<usize>::new());
    assert_eq!(select_screenshots(&store, &Vec::new()), Vec::<usize>::new());
}

#[test]
fn chosen_screenshots_are_decoded_in_order() {
    let store = vec![stored("a", &solid(2, 1, 1)), stored("b", &solid(1, 2, 2))];
    let images = decode_screenshots(&store, &vec![1, 0, 1]).unwrap();
    assert_eq!(images, vec![solid(1, 2, 2), solid(2, 1, 1), solid(1, 2, 2)]);
    assert_eq!(decode_screenshots(&store, &Vec::new()).unwrap(), Vec::new());
}

#[test]
fn first_unreadable_screenshot_stops_decoding() {
    let store = vec![
        stored("a", &solid(2, 1, 1)),
        broken("b", "data:image/png;base64"),
        broken("c", "aGVsbG8="),
    ];
    assert_eq!(decode_screenshots(&store, &vec![0, 1, 2]), Err(CodecError::InvalidDataUrl));
    assert!(matches!(decode_screenshots(&store, &vec![2, 1]), Err(CodecError::Image(_))));
}

#[test]
fn stored_screenshots_are_composed() {
    let first = solid(100, 50, 10);
    let second = solid(80, 60, 20);
    let store = vec![stored("one", &first), stored("two", &second)];
    let text = compose_screenshots(&store, &ids(&["one", "two"]), "horizontal").unwrap();
    let expected = compose_images(&vec![first.clone(), second.clone()], "horizontal").unwrap();
    assert_eq!(text, image_to_base64(&expected).unwrap());
    let canvas = base64_to_image(&text).unwrap();
    assert_eq!((canvas.width(), canvas.height()), (180, 60));
    assert_eq!(canvas, expected);
    let text = compose_screenshots(&store, &ids(&["two", "gone", "one"]), "vertical").unwrap();
    let expected = compose_images(&vec![second, first], "vertical").unwrap();
    assert_eq!(base64_to_image(&text).unwrap(), expected);
}

#[test]
fn composing_nothing_found_fails() {
    let store = vec![stored("one", &solid(2, 2, 1))];
    assert_eq!(
        compose_screenshots(&store, &ids(&["two"]), "grid"),
        Err(RequestError::NoScreenshotsFound)
    );
    assert_eq!(
        compose_screenshots(&store, &Vec::new(), "grid"),
        Err(RequestError::NoScreenshotsFound)
    );
    assert_eq!(
        compose_screenshots(&Vec::new(), &ids(&["one"]), "nonsense"),
        Err(RequestError::NoScreenshotsFound)
    );
}

#[test]
fn composing_with_unknown_layout_fails() {
    let store = vec![stored("one", &solid(2, 2, 1))];
    assert_eq!(
        compose_screenshots(&store, &ids(&["one"]), "circular"),
        Err(RequestError::Compose(ComposeError::UnsupportedLayout))
    );
}

#[test]
fn unreadable_screenshot_fails_before_the_layout_is_looked_at() {
    let store = vec![stored("one", &solid(2, 2, 1)), broken("bad", "data:image/png;base64")];
    assert_eq!(
        compose_screenshots(&store, &ids(&["one", "bad"]), "circular"),
        Err(RequestError::Codec(CodecError::InvalidDataUrl))
    );
    assert_eq!(
        compose_screenshots(&store, &ids(&["one"]), "grid").map(|_| ()),
        Ok(())
    );
}

#[test]
fn distinct_identifiers_name_one_record_each() {
    let store = vec![stored("a", &solid(1, 1, 1)), stored("b", &solid(1, 1, 2)), stored("c", &solid(1, 1, 3))];
    for (k, record) in store.iter().enumerate() {
        assert_eq!(find_screenshot(&store, &record.id), Some(k));
    }
}
