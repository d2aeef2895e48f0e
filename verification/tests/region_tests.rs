use screen_composer::{clamp_region, CaptureError, CaptureRegion, ScreenRect};

fn region(x: i32, y: i32, width: u32, height: u32) -> CaptureRegion {
    CaptureRegion { x, y, width, height }
}

fn rect(x: u32, y: u32, width: u32, height: u32) -> ScreenRect {
    ScreenRect { x, y, width, height }
}

#[test]
fn region_inside_is_kept() {
    assert_eq!(clamp_region(&region(100, 100, 200, 200), 1920, 1080), Ok(rect(100, 100, 200, 200)));
    assert_eq!(clamp_region(&region(0, 0, 1920, 1080), 1920, 1080), Ok(rect(0, 0, 1920, 1080)));
    assert_eq!(clamp_region(&region(1919, 1079, 1, 1), 1920, 1080), Ok(rect(1919, 1079, 1, 1)));
}

#[test]
fn negative_origin_clamps_to_zero() {
    assert_eq!(clamp_region(&region(-10, -20, 100, 50), 1920, 1080), Ok(rect(0, 0, 100, 50)));
    assert_eq!(clamp_region(&region(-10, 5, 100, 50), 1920, 1080), Ok(rect(0, 5, 100, 50)));
    assert_eq!(
        clamp_region(&region(i32::MIN, i32::MIN, u32::MAX, u32::MAX), 1920, 1080),
        Ok(rect(0, 0, 1920, 1080))
    );
}

#[test]
fn extents_are_cut_to_the_display() {
    assert_eq!(clamp_region(&region(1900, 1000, 100, 100), 1920, 1080), Ok(rect(1900, 1000, 20, 80)));
    assert_eq!(clamp_region(&region(-5, 0, 5000, 10), 1920, 1080), Ok(rect(0, 0, 1920, 10)));
}

#[test]
fn region_off_screen_is_invalid() {
    assert_eq!(
        clamp_region(&region(1930, 10, 100, 100), 1920, 1080),
        Err(CaptureError::InvalidRegion { width: 0, height: 100 })
    );
    assert_eq!(
        clamp_region(&region(1920, 10, 100, 100), 1920, 1080),
        Err(CaptureError::InvalidRegion { width: 0, height: 100 })
    );
    assert_eq!(
        clamp_region(&region(10, 1080, 100, 100), 1920, 1080),
        Err(CaptureError::InvalidRegion { width: 100, height: 0 })
    );
    assert_eq!(
        clamp_region(&region(i32::MAX, i32::MAX, 1, 1), 1920, 1080),
        Err(CaptureError::InvalidRegion { width: 0, height: 0 })
    );
}

#[test]
fn region_without_area_is_invalid() {
    assert_eq!(
        clamp_region(&region(10, 10, 0, 100), 1920, 1080),
        Err(CaptureError::InvalidRegion { width: 0, height: 100 })
    );
    assert_eq!(
        clamp_region(&region(10, 10, 100, 0), 1920, 1080),
        Err(CaptureError::InvalidRegion { width: 100, height: 0 })
    );
}

#[test]
fn empty_display_has_no_valid_region() {
    assert_eq!(
        clamp_region(&region(0, 0, 10, 10), 0, 1080),
        Err(CaptureError::InvalidRegion { width: 0, height: 10 })
    );
    assert_eq!(
        clamp_region(&region(-3, -3, 10, 10), 1920, 0),
        Err(CaptureError::InvalidRegion { width: 10, height: 0 })
    );
}

#[test]
fn clamped_region_always_lies_inside() {
    let displays = [(1u32, 1u32), (800, 600), (1920, 1080)];
    let coordinates = [-2000, -1, 0, 1, 599, 600, 799, 800, 1919, 1920, 5000];
    let extents = [0u32, 1, 2, 600, 800, 1080, 1920, 100_000];
    for (dw, dh) in displays {
        for x in coordinates {
            for y in coordinates {
                for w in extents {
                    for h in extents {
                        if let Ok(r) = clamp_region(&region(x, y, w, h), dw, dh) {
                            assert!(r.width >= 1 && r.height >= 1);
                            assert!(r.x as u64 + r.width as u64 <= dw as u64);
                            assert!(r.y as u64 + r.height as u64 <= dh as u64);
                            assert!(r.width <= w && r.height <= h);
                            assert_eq!(r.x as i64, (x as i64).max(0));
                            assert_eq!(r.y as i64, (y as i64).max(0));
                        } else {
                            assert!(
                                w == 0 || h == 0 || x as i64 >= dw as i64 || y as i64 >= dh as i64
                            );
                            let left_x = (dw as i64 - (x as i64).clamp(0, dw as i64)).min(w as i64);
                            let left_y = (dh as i64 - (y as i64).clamp(0, dh as i64)).min(h as i64);
                            assert_eq!(
                                clamp_region(&region(x, y, w, h), dw, dh),
                                Err(CaptureError::InvalidRegion {
                                    width: left_x as u32,
                                    height: left_y as u32,
                                })
                            );
                        }
                    }
                }
            }
        }
    }
}
