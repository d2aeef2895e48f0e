use screen_composer::{
    get_all_monitors, get_screen_dimensions, primary_index, primary_monitor, CaptureError,
    MonitorDescriptor, MonitorProbe,
};

fn probe(name: &str, width: u32, height: u32, x: i32, y: i32, primary: bool) -> MonitorProbe {
    MonitorProbe {
        name: Ok(name.to_string()),
        width: Ok(width),
        height: Ok(height),
        x: Ok(x),
        y: Ok(y),
        is_primary: Ok(primary),
    }
}

fn silent() -> MonitorProbe {
    MonitorProbe {
        name: Err("no name".to_string()),
        width: Err("no width".to_string()),
        height: Err("no height".to_string()),
        x: Err("no x".to_string()),
        y: Err("no y".to_string()),
        is_primary: Err("no flag".to_string()),
    }
}

#[test]
fn monitors_are_listed_in_order() {
    let probes = vec![probe("left", 1920, 1080, -1920, 0, false), probe("main", 2560, 1440, 0, 0, true)];
    let monitors = get_all_monitors(&probes);
    assert_eq!(
        monitors,
        vec![
            MonitorDescriptor {
                name: "left".to_string(),
                width: 1920,
                height: 1080,
                x: -1920,
                y: 0,
                is_primary: false,
            },
            MonitorDescriptor {
                name: "main".to_string(),
                width: 2560,
                height: 1440,
                x: 0,
                y: 0,
                is_primary: true,
            },
        ]
    );
}

#[test]
fn failed_queries_give_sentinels() {
    let probes = vec![silent(), probe("main", 800, 600, 10, 20, true)];
    let monitors = get_all_monitors(&probes);
    assert_eq!(monitors.len(), 2);
    assert_eq!(
        monitors[0],
        MonitorDescriptor {
            name: "Unknown".to_string(),
            width: 0,
            height: 0,
            x: 0,
            y: 0,
            is_primary: false,
        }
    );
    assert_eq!(monitors[1].name, "main");
    assert_eq!(monitors[1].width, 800);
}

#[test]
fn no_monitors_gives_an_empty_list() {
    assert_eq!(get_all_monitors(&Vec::new()), Vec::new());
}

#[test]
fn primary_is_the_flagged_display() {
    let probes = vec![
        probe("a", 1, 1, 0, 0, false),
        silent(),
        probe("b", 1280, 720, 5, 6, true),
        probe("c", 640, 480, 0, 0, true),
    ];
    assert_eq!(primary_index(&probes), Some(2));
    let primary = primary_monitor(&probes).unwrap();
    assert_eq!(primary.name, "b");
    assert_eq!((primary.width, primary.height, primary.x, primary.y), (1280, 720, 5, 6));
    assert!(primary.is_primary);
    assert_eq!(get_screen_dimensions(&probes), Ok((1280, 720)));
}

#[test]
fn no_primary_is_an_error() {
    let probes = vec![probe("a", 1, 1, 0, 0, false), silent()];
    assert_eq!(primary_index(&probes), None);
    assert_eq!(primary_monitor(&probes), Err(CaptureError::NoPrimaryMonitor));
    assert_eq!(get_screen_dimensions(&probes), Err(CaptureError::NoPrimaryMonitor));
    assert_eq!(primary_monitor(&Vec::new()), Err(CaptureError::NoPrimaryMonitor));
}

#[test]
fn failed_flag_query_is_not_primary() {
    let mut first = probe("first", 100, 100, 0, 0, true);
    first.is_primary = Err("query failed".to_string());
    let probes = vec![first];
    assert_eq!(primary_monitor(&probes), Err(CaptureError::NoPrimaryMonitor));
}

#[test]
fn dimensions_need_both_queries() {
    let mut no_width = probe("main", 100, 200, 0, 0, true);
    no_width.width = Err("width failed".to_string());
    assert_eq!(
        get_screen_dimensions(&vec![no_width]),
        Err(CaptureError::CaptureBackendFailure("width failed".to_string()))
    );
    let mut no_height = probe("main", 100, 200, 0, 0, true);
    no_height.height = Err("height failed".to_string());
    assert_eq!(
        get_screen_dimensions(&vec![no_height]),
        Err(CaptureError::CaptureBackendFailure("height failed".to_string()))
    );
    let mut neither = probe("main", 100, 200, 0, 0, true);
    neither.width = Err("width failed".to_string());
    neither.height = Err("height failed".to_string());
    assert_eq!(
        get_screen_dimensions(&vec![neither]),
        Err(CaptureError::CaptureBackendFailure("width failed".to_string()))
    );
}
