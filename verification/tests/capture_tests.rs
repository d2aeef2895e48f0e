use screen_composer::{
    advance, begin, BackendReply, CaptureCommand, CaptureError, CapturePhase, CaptureRegion,
    CaptureRequest, MonitorProbe, PixelBuffer, Rgba, ScreenRect,
};

fn display(width: u32, height: u32, primary: bool) -> MonitorProbe {
    MonitorProbe {
        name: Ok("display".to_string()),
        width: Ok(width),
        height: Ok(height),
        x: Ok(0),
        y: Ok(0),
        is_primary: Ok(primary),
    }
}

fn frame(width: u32, height: u32) -> PixelBuffer {
    let mut buffer = PixelBuffer::new(width, height);
    for y in 0..height {
        for x in 0..width {
            buffer.put_pixel(x, y, Rgba { r: x as u8, g: y as u8, b: 7, a: 255 });
        }
    }
    buffer
}

fn region_request(x: i32, y: i32, width: u32, height: u32) -> CaptureRequest {
    CaptureRequest::Region(CaptureRegion { x, y, width, height })
}

fn failure(text: &str) -> CaptureCommand {
    CaptureCommand::Fail(CaptureError::CaptureBackendFailure(text.to_string()))
}

#[test]
fn capture_starts_by_resolving() {
    let request = region_request(1, 2, 3, 4);
    assert_eq!(begin(request), CapturePhase::Resolving { request });
    assert_eq!(
        begin(CaptureRequest::FullScreen),
        CapturePhase::Resolving { request: CaptureRequest::FullScreen }
    );
}

#[test]
fn direct_capture_delivers_the_region() {
    let phase = begin(region_request(10, 20, 30, 40));
    let probes = vec![display(50, 50, false), display(100, 100, true)];
    let (phase, command) = advance(phase, BackendReply::Monitors(probes));
    let target = ScreenRect { x: 10, y: 20, width: 30, height: 40 };
    assert_eq!(phase, CapturePhase::Direct { monitor: 1, target });
    assert_eq!(command, CaptureCommand::CaptureRegion { monitor: 1, target });
    let (phase, command) = advance(phase, BackendReply::Frame(frame(30, 40)));
    assert_eq!(phase, CapturePhase::Finished);
    assert_eq!(command, CaptureCommand::Deliver(frame(30, 40)));
}

#[test]
fn negative_origin_is_clamped_before_capture() {
    let phase = begin(region_request(-5, -5, 300, 40));
    let (phase, command) = advance(phase, BackendReply::Monitors(vec![display(100, 100, true)]));
    let target = ScreenRect { x: 0, y: 0, width: 100, height: 40 };
    assert_eq!(phase, CapturePhase::Direct { monitor: 0, target });
    assert_eq!(command, CaptureCommand::CaptureRegion { monitor: 0, target });
}

#[test]
fn off_screen_region_fails() {
    let phase = begin(region_request(110, 0, 10, 10));
    let (phase, command) = advance(phase, BackendReply::Monitors(vec![display(100, 100, true)]));
    assert_eq!(phase, CapturePhase::Finished);
    assert_eq!(
        command,
        CaptureCommand::Fail(CaptureError::InvalidRegion { width: 0, height: 10 })
    );
}

#[test]
fn missing_primary_fails() {
    let phase = begin(region_request(0, 0, 10, 10));
    let (phase, command) = advance(phase, BackendReply::Monitors(vec![display(100, 100, false)]));
    assert_eq!(phase, CapturePhase::Finished);
    assert_eq!(command, CaptureCommand::Fail(CaptureError::NoPrimaryMonitor));
    let (phase, command) = advance(begin(CaptureRequest::FullScreen), BackendReply::Monitors(Vec::new()));
    assert_eq!(phase, CapturePhase::Finished);
    assert_eq!(command, CaptureCommand::Fail(CaptureError::NoPrimaryMonitor));
}

#[test]
fn failed_enumeration_fails() {
    let phase = begin(region_request(0, 0, 10, 10));
    let (phase, command) = advance(phase, BackendReply::Failed("no display server".to_string()));
    assert_eq!(phase, CapturePhase::Finished);
    assert_eq!(command, failure("no display server"));
}

#[test]
fn failed_size_query_fails() {
    let mut primary = display(100, 100, true);
    primary.height = Err("height unknown".to_string());
    let phase = begin(region_request(0, 0, 10, 10));
    let (phase, command) = advance(phase, BackendReply::Monitors(vec![primary]));
    assert_eq!(phase, CapturePhase::Finished);
    assert_eq!(command, failure("height unknown"));
}

#[test]
fn failed_direct_capture_falls_back_and_crops() {
    let target = ScreenRect { x: 3, y: 2, width: 4, height: 5 };
    let phase = CapturePhase::Direct { monitor: 0, target };
    let (phase, command) = advance(phase, BackendReply::Failed("region failed".to_string()));
    assert_eq!(phase, CapturePhase::Fallback { monitor: 0, target });
    assert_eq!(command, CaptureCommand::CaptureDisplay { monitor: 0 });
    let full = frame(10, 10);
    let (phase, command) = advance(phase, BackendReply::Frame(full.clone()));
    assert_eq!(phase, CapturePhase::Finished);
    match command {
        CaptureCommand::Deliver(cut) => {
            assert_eq!((cut.width(), cut.height()), (4, 5));
            for y in 0..5 {
                for x in 0..4 {
                    assert_eq!(cut.get_pixel(x, y), full.get_pixel(3 + x, 2 + y));
                }
            }
        }
        other => panic!("expected a delivery, got {:?}", other),
    }
}

#[test]
fn direct_capture_is_delivered_whatever_its_size() {
    let target = ScreenRect { x: 0, y: 0, width: 4, height: 4 };
    for (width, height) in [(8, 8), (4, 3), (1, 1), (4, 4)] {
        let phase = CapturePhase::Direct { monitor: 2, target };
        let (phase, command) = advance(phase, BackendReply::Frame(frame(width, height)));
        assert_eq!(phase, CapturePhase::Finished);
        assert_eq!(command, CaptureCommand::Deliver(frame(width, height)));
    }
}

#[test]
fn whole_display_is_asked_for_only_after_a_failure() {
    let target = ScreenRect { x: 1, y: 1, width: 2, height: 2 };
    let replies = vec![
        BackendReply::Frame(frame(2, 2)),
        BackendReply::Frame(frame(9, 9)),
        BackendReply::Monitors(Vec::new()),
        BackendReply::Failed("busy".to_string()),
    ];
    for reply in replies {
        let failed = matches!(reply, BackendReply::Failed(_));
        let (phase, command) = advance(CapturePhase::Direct { monitor: 0, target }, reply);
        let fell_back = phase == CapturePhase::Fallback { monitor: 0, target };
        assert_eq!(fell_back, failed);
        assert_eq!(command == CaptureCommand::CaptureDisplay { monitor: 0 }, failed);
    }
}

#[test]
fn failed_fallback_fails_with_its_cause() {
    let target = ScreenRect { x: 0, y: 0, width: 4, height: 4 };
    let phase = CapturePhase::Fallback { monitor: 0, target };
    let (phase, command) = advance(phase, BackendReply::Failed("display gone".to_string()));
    assert_eq!(phase, CapturePhase::Finished);
    assert_eq!(command, failure("display gone"));
}

#[test]
fn fallback_frame_must_cover_the_region() {
    let target = ScreenRect { x: 8, y: 8, width: 4, height: 4 };
    let phase = CapturePhase::Fallback { monitor: 0, target };
    let (phase, command) = advance(phase, BackendReply::Frame(frame(10, 10)));
    assert_eq!(phase, CapturePhase::Finished);
    assert_eq!(command, failure("captured frame does not cover the requested region"));
}

#[test]
fn full_screen_capture_delivers_the_frame() {
    let phase = begin(CaptureRequest::FullScreen);
    let (phase, command) = advance(phase, BackendReply::Monitors(vec![display(6, 4, true)]));
    assert_eq!(phase, CapturePhase::Full { monitor: 0 });
    assert_eq!(command, CaptureCommand::CaptureDisplay { monitor: 0 });
    let (phase, command) = advance(phase, BackendReply::Frame(frame(6, 4)));
    assert_eq!(phase, CapturePhase::Finished);
    assert_eq!(command, CaptureCommand::Deliver(frame(6, 4)));
}

#[test]
fn full_screen_capture_failure() {
    let (phase, command) =
        advance(CapturePhase::Full { monitor: 0 }, BackendReply::Failed("denied".to_string()));
    assert_eq!(phase, CapturePhase::Finished);
    assert_eq!(command, failure("denied"));
}

#[test]
fn replies_out_of_turn_fail() {
    let unexpected = "unexpected reply from the capture backend";
    let target = ScreenRect { x: 0, y: 0, width: 1, height: 1 };
    let cases = vec![
        (begin(CaptureRequest::FullScreen), BackendReply::Frame(frame(1, 1))),
        (CapturePhase::Direct { monitor: 0, target }, BackendReply::Monitors(Vec::new())),
        (CapturePhase::Fallback { monitor: 0, target }, BackendReply::Monitors(Vec::new())),
        (CapturePhase::Full { monitor: 0 }, BackendReply::Monitors(Vec::new())),
        (CapturePhase::Finished, BackendReply::Frame(frame(1, 1))),
        (CapturePhase::Finished, BackendReply::Failed("late".to_string())),
    ];
    for (phase, reply) in cases {
        let (next, command) = advance(phase, reply);
        assert_eq!(next, CapturePhase::Finished);
        assert_eq!(command, failure(unexpected));
    }
}
