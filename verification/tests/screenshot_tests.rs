use adapter_macos::screenshot::{
    ensure_screenshot_file_exists, find_capturable_window, screenshot_file_check,
    select_capturable_windows, validate_display, validate_user_output_path, CapturableWindow,
    WindowBounds, WindowCatalogEntry,
};

#[allow(clippy::too_many_arguments)]
fn entry(
    window_id: u32,
    app: &str,
    title: &str,
    owner_pid: i32,
    layer: i32,
    alpha: f64,
    is_frontmost: bool,
    bounds: (i32, i32, i32, i32),
) -> WindowCatalogEntry {
    WindowCatalogEntry {
        window_id,
        app: app.into(),
        title: title.into(),
        owner_pid,
        layer,
        alpha_above_zero: alpha > 0.0,
        is_onscreen: true,
        is_frontmost,
        bounds: WindowBounds { x: bounds.0, y: bounds.1, width: bounds.2, height: bounds.3 },
    }
}

fn rejects_parent_components() {
    let err = validate_user_output_path("../shot.png").expect_err("should reject");

    assert!(err.contains("parent directory"));
}

fn reports_missing_file() {
    let err = ensure_screenshot_file_exists("/tmp/does-not-exist-cueward.png").expect_err("should fail");

    assert!(err.contains("was not created"));
}

fn rejects_out_of_range_display() {
    let err = validate_display(Some(11)).expect_err("should reject");

    assert!(err.contains("between 1 and 10"));
}

#[test]
fn screenshot_validate_user_output_path_rejects_parent_components() {
    rejects_parent_components();
}

#[test]
fn tests_validate_user_output_path_rejects_parent_components() {
    rejects_parent_components();
}

#[test]
fn screenshot_ensure_screenshot_file_exists_reports_missing_file() {
    reports_missing_file();
}

#[test]
fn tests_ensure_screenshot_file_exists_reports_missing_file() {
    reports_missing_file();
}

#[test]
fn screenshot_validate_display_rejects_out_of_range_values() {
    rejects_out_of_range_display();
}

#[test]
fn tests_validate_display_rejects_out_of_range_values() {
    rejects_out_of_range_display();
}

#[test]
fn output_path_checks_line_breaks_and_components() {
    assert_eq!(
        validate_user_output_path("shots/a\nb.png").expect_err("line break"),
        "path must not contain control characters"
    );
    assert_eq!(validate_user_output_path("shots/..png").expect("dots in a name"), "shots/..png");
    assert!(validate_user_output_path("/tmp/a/../b.png").is_err());
    assert_eq!(validate_user_output_path("/tmp/shot.png").expect("plain path"), "/tmp/shot.png");
}

#[test]
fn display_bounds_are_inclusive() {
    assert!(validate_display(None).is_ok());
    assert!(validate_display(Some(1)).is_ok());
    assert!(validate_display(Some(10)).is_ok());
    assert_eq!(
        validate_display(Some(0)).expect_err("zero"),
        "invalid display number 0: must be between 1 and 10"
    );
}

#[test]
fn file_check_reports_the_path() {
    assert!(screenshot_file_check("/tmp/x.png", true).is_ok());
    assert_eq!(
        screenshot_file_check("/tmp/x.png", false).expect_err("missing"),
        "screenshot file was not created at /tmp/x.png"
    );
}

#[test]
fn capturable_window_lookup_by_id() {
    let bounds = WindowBounds { x: 0, y: 0, width: 100, height: 100 };
    let windows = vec![
        CapturableWindow { window_id: 7, app: "Finder".into(), title: "Home".into(), owner_pid: 1, is_frontmost: true, bounds },
        CapturableWindow { window_id: 9, app: "Mail".into(), title: "Inbox".into(), owner_pid: 2, is_frontmost: false, bounds },
    ];
    assert_eq!(find_capturable_window(&windows, 9).expect("found").app, "Mail");
    assert_eq!(
        find_capturable_window(&windows, 3).expect_err("missing").to_string(),
        "window id not found: 3"
    );
}

#[test]
fn select_capturable_windows_filters_out_noise_windows() {
    let windows = vec![
        entry(1, "Discord", "工程室", 100, 0, 1.0, false, (10, 10, 800, 600)),
        entry(2, "Window Server", "", 101, 25, 1.0, false, (0, 0, 100, 100)),
        entry(3, "Finder", "Downloads", 102, 0, 0.0, false, (0, 0, 900, 700)),
        entry(4, "WindowManager", "Gesture Blocking Overlay", 103, 0, 1.0, false, (10, 10, 800, 600)),
    ];
    let selected = select_capturable_windows(windows);

    assert_eq!(selected.len(), 1);
    assert_eq!(selected[0].window_id, 1);
}

#[test]
fn select_capturable_windows_sorts_frontmost_windows_first() {
    let windows = vec![
        entry(10, "Safari", "B", 200, 0, 1.0, false, (0, 0, 800, 600)),
        entry(11, "Discord", "A", 201, 0, 1.0, true, (20, 20, 900, 700)),
    ];
    let selected = select_capturable_windows(windows);

    assert_eq!(selected[0].window_id, 11);
    assert_eq!(selected[1].window_id, 10);
}

#[test]
fn select_capturable_windows_can_find_window_id() {
    let windows = select_capturable_windows(vec![entry(88, "Safari", "Docs", 200, 0, 1.0, false, (0, 0, 800, 600))]);

    assert!(windows.iter().any(|window| window.window_id == 88));
}

#[test]
fn find_capturable_window_rejects_missing_id() {
    let windows = select_capturable_windows(vec![entry(88, "Safari", "Docs", 200, 0, 1.0, false, (0, 0, 800, 600))]);
    let err = find_capturable_window(&windows, 999).expect_err("missing id should fail");

    assert_eq!(err.to_string(), "window id not found: 999");
}

#[test]
fn selection_orders_by_app_title_and_id_ignoring_case() {
    let windows = vec![
        entry(5, "safari", "b", 1, 0, 1.0, false, (0, 0, 10, 10)),
        entry(3, "Safari", "a", 1, 0, 1.0, false, (0, 0, 10, 10)),
        entry(4, "Mail", "Inbox", 1, 0, 1.0, false, (0, 0, 10, 10)),
        entry(2, "Safari", "B", 1, 0, 1.0, false, (0, 0, 10, 10)),
        entry(9, "Notes", "x", 1, 0, 1.0, true, (0, 0, 10, 10)),
        entry(7, "  ", "blank app", 1, 0, 1.0, true, (0, 0, 10, 10)),
        entry(8, "Zoom", "flat", 1, 0, 1.0, false, (0, 0, 10, 0)),
    ];
    let ids: Vec<u32> = select_capturable_windows(windows).iter().map(|w| w.window_id).collect();

    assert_eq!(ids, vec![9, 4, 3, 2, 5]);
}

struct FakeShots {
    outcome: Result<(bool, String), String>,
    present: bool,
    lines: Result<Vec<String>, String>,
    runs: Vec<Vec<String>>,
    home: Option<String>,
    mkdir: Result<(), String>,
}

impl adapter_macos::screenshot::ScreenshotHost for FakeShots {
    fn local_timestamps(&mut self) -> (String, String) {
        ("20240101-000000".into(), "2024-01-01T00:00:00+00:00".into())
    }
    fn home_dir(&mut self) -> Option<String> {
        self.home.clone()
    }
    fn create_dir_all(&mut self, _dir: &str) -> Result<(), String> {
        self.mkdir.clone()
    }
    fn screencapture(&mut self, args: &Vec<String>) -> Result<(bool, String), String> {
        self.runs.push(args.clone());
        self.outcome.clone()
    }
    fn file_exists(&mut self, _path: &str) -> bool {
        self.present
    }
    fn recognize_text(&mut self, _path: &str) -> Result<Vec<String>, String> {
        self.lines.clone()
    }
}

fn shots(outcome: Result<(bool, String), String>, present: bool, lines: Result<Vec<String>, String>) -> adapter_macos::screenshot::Screenshots<FakeShots> {
    adapter_macos::screenshot::Screenshots::new(FakeShots {
        outcome,
        present,
        lines,
        runs: Vec::new(),
        home: Some("/home/tester".into()),
        mkdir: Ok(()),
    })
}

#[test]
fn capture_reports_the_trimmed_screencapture_error_after_running_it() {
    let mut s = shots(Ok((false, "  no permission \n".into())), true, Ok(vec![]));
    let err = adapter_macos::screenshot::capture(&mut s, false, Some("/tmp/shot.png"), Some(2)).unwrap_err();
    assert_eq!(err.to_string(), "screencapture failed: no permission");
    assert_eq!(s.host.runs, vec![vec!["-x".to_string(), "-D".into(), "2".into(), "/tmp/shot.png".into()]]);
}

#[test]
fn capture_reports_a_missing_file_and_a_blank_failure() {
    let mut s = shots(Ok((true, String::new())), false, Ok(vec![]));
    let err = adapter_macos::screenshot::capture(&mut s, false, Some("/tmp/shot.png"), None).unwrap_err();
    assert_eq!(err.to_string(), "screenshot file was not created at /tmp/shot.png");
    let mut s = shots(Ok((false, "   ".into())), true, Ok(vec![]));
    let err = adapter_macos::screenshot::capture(&mut s, false, Some("/tmp/shot.png"), None).unwrap_err();
    assert_eq!(err.to_string(), "screencapture failed");
    let mut s = shots(Err("not found".into()), true, Ok(vec![]));
    let err = adapter_macos::screenshot::capture(&mut s, false, Some("/tmp/shot.png"), None).unwrap_err();
    assert_eq!(err.to_string(), "screencapture: not found");
}

#[test]
fn capture_joins_recognized_lines_into_the_cache_file_result() {
    let mut s = shots(Ok((true, String::new())), true, Ok(vec!["first".into(), "second".into()]));
    let shot = adapter_macos::screenshot::capture(&mut s, true, None, None).unwrap();
    assert_eq!(shot.path, format!("/home/tester/{}/20240101-000000.png", adapter_macos::screenshot::CACHE_DIR));
    assert_eq!(shot.ocr_text.as_deref(), Some("first\nsecond"));
    let mut s = shots(Ok((true, String::new())), true, Err("vision failed".into()));
    let shot = adapter_macos::screenshot::capture(&mut s, true, Some("/tmp/shot.png"), None).unwrap();
    assert_eq!(shot.ocr_text, None);
}

#[test]
fn capture_refuses_a_bad_display_before_running_anything() {
    let mut s = shots(Ok((true, String::new())), true, Ok(vec![]));
    assert!(adapter_macos::screenshot::capture(&mut s, false, Some("/tmp/shot.png"), Some(0)).is_err());
    assert!(s.host.runs.is_empty());
}

#[test]
fn capture_without_home_fails_before_running_screencapture() {
    let mut s = shots(Ok((true, String::new())), true, Ok(vec![]));
    s.host.home = None;
    let err = adapter_macos::screenshot::capture(&mut s, false, None, None).unwrap_err();
    assert_eq!(err.to_string(), "HOME not set");
    assert!(s.host.runs.is_empty());
}

#[test]
fn capture_reports_the_cache_directory_that_could_not_be_made() {
    let mut s = shots(Ok((true, String::new())), true, Ok(vec![]));
    s.host.mkdir = Err("read-only".into());
    let err = adapter_macos::screenshot::capture(&mut s, false, None, None).unwrap_err();
    assert_eq!(err.to_string(), "failed to create /home/tester/.cueward/cache/screenshots: read-only");
    assert!(s.host.runs.is_empty());
}
