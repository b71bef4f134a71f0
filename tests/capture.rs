use prtsc_wayland::phase::StatePhase;
use prtsc_wayland::screenshot::{swap_red_blue, CaptureError, FrameInfo, PixelFormat, ScreenshotApp};

fn info(format: PixelFormat) -> FrameInfo {
    FrameInfo { width: 2, height: 1, stride: 8, format }
}

#[test]
fn blue_first_frame_is_swapped() {
    let mut app = ScreenshotApp::new();
    assert_eq!(app.current_phase(), StatePhase::Active);
    assert_eq!(app.on_buffer(info(PixelFormat::Xbgr8888)), Ok(()));
    let raw = vec![1, 2, 3, 4, 5, 6, 7, 8];
    assert_eq!(app.on_ready(raw.clone()), Ok(()));
    let img = app.image.clone().unwrap();
    assert_eq!(img[0], raw[2]);
    assert_eq!(img[2], raw[0]);
    assert_eq!(img, vec![3, 2, 1, 4, 7, 6, 5, 8]);
    assert_eq!(app.current_phase(), StatePhase::Done);
}

#[test]
fn abgr_frame_is_swapped() {
    let mut app = ScreenshotApp::new();
    app.on_buffer(info(PixelFormat::Abgr8888)).unwrap();
    app.on_ready(vec![9, 8, 7, 6, 5, 4, 3, 2]).unwrap();
    assert_eq!(app.image.unwrap(), vec![7, 8, 9, 6, 3, 4, 5, 2]);
}

#[test]
fn red_first_frame_is_kept() {
    for format in [PixelFormat::Xrgb8888, PixelFormat::Argb8888] {
        let mut app = ScreenshotApp::new();
        app.on_buffer(info(format)).unwrap();
        app.on_ready(vec![1, 2, 3, 4, 5, 6, 7, 8]).unwrap();
        assert_eq!(app.image.unwrap(), vec![1, 2, 3, 4, 5, 6, 7, 8]);
    }
}

#[test]
fn ready_without_buffer_fails() {
    let mut app = ScreenshotApp::new();
    assert_eq!(app.on_ready(vec![1, 2, 3, 4]), Err(CaptureError::ReadyWithoutBuffer));
    assert!(app.image.is_none());
}

#[test]
fn unsupported_format_fails() {
    let mut app = ScreenshotApp::new();
    assert_eq!(app.on_buffer(info(PixelFormat::Other(0x3432_4752))), Err(CaptureError::UnsupportedFormat(0x3432_4752)));
    assert!(app.frame.is_none());
}

#[test]
fn swap_handles_partial_pixel() {
    assert_eq!(swap_red_blue(vec![1, 2, 3, 4, 5, 6, 7]), vec![3, 2, 1, 4, 7, 6, 5]);
    assert_eq!(swap_red_blue(vec![1, 2, 3, 4, 5, 6]), vec![3, 2, 1, 4, 5, 6]);
    assert_eq!(swap_red_blue(vec![]), Vec::<u8>::new());
}
