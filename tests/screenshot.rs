use remotesync::error::SyncError;
use remotesync::screenshot::{capture_screenshot_to_jpg, join_path, screenshot_file_name, LocalTime};

fn t() -> LocalTime {
    LocalTime { year: 2024, month: 3, day: 7, hour: 9, minute: 5, second: 59 }
}

#[test]
fn screenshot_name_is_zero_padded() {
    assert_eq!(screenshot_file_name(&t()), "screenshot_2024-03-07_09-05-59.jpg");
    let early = LocalTime { year: 7, month: 12, day: 31, hour: 23, minute: 0, second: 0 };
    assert_eq!(screenshot_file_name(&early), "screenshot_0007-12-31_23-00-00.jpg");
}

#[test]
fn screenshot_target_in_temp_dir() {
    let (path, name) = capture_screenshot_to_jpg(true, &t(), "/tmp").unwrap();
    assert_eq!(name, "screenshot_2024-03-07_09-05-59.jpg");
    assert_eq!(path, "/tmp/screenshot_2024-03-07_09-05-59.jpg");
    assert_eq!(join_path("/var/tmp/", "x.jpg"), "/var/tmp/x.jpg");
    assert_eq!(join_path("", "x.jpg"), "x.jpg");
}

#[test]
fn screenshot_unsupported_platform() {
    assert_eq!(capture_screenshot_to_jpg(false, &t(), "/tmp"), Err(SyncError::PlatformUnsupported));
    assert_eq!(SyncError::PlatformUnsupported.message(), "Screenshot capture is only supported on macOS");
}
