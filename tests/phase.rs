use prtsc_wayland::context::{buffer_len, logical_size_of, Error, OutputReport, Stage, WaylandContext};
use prtsc_wayland::phase::{AppState, BaseApp, StatePhase};
use prtsc_wayland::points::{Point, Rectangle};
use prtsc_wayland::region::fullscreen_region;
use prtsc_wayland::screenshot::{FrameInfo, PixelFormat, ScreenshotApp};
use prtsc_wayland::selection::SelectionState;

type Ctx = WaylandContext<&'static str, Vec<u8>, u32>;

#[test]
fn fullscreen_covers_output() {
    let size = logical_size_of(OutputReport::Info { logical_size: Some((1920, 1080)) }).unwrap();
    assert_eq!(fullscreen_region(size), Rectangle::new(Point::new(0, 0), 1920, 1080));
}

#[test]
fn output_report_errors() {
    assert_eq!(logical_size_of(OutputReport::Missing), Err(Error::NoOutput));
    assert_eq!(logical_size_of(OutputReport::NoInfo), Err(Error::NoOutputInfo));
    assert_eq!(logical_size_of(OutputReport::Info { logical_size: None }), Err(Error::NoOutputLogicalSize));
    assert_eq!(logical_size_of(OutputReport::Info { logical_size: Some((0, 10)) }), Err(Error::NoOutputLogicalSize));
    assert_eq!(logical_size_of(OutputReport::Info { logical_size: Some((3, 2)) }), Ok(Point::new(3, 2)));
}

#[test]
fn buffer_length() {
    assert_eq!(buffer_len(Point::new(1920, 1080)), Some(1920 * 1080 * 4));
    assert_eq!(buffer_len(Point::new(0, 5)), Some(0));
}

#[test]
fn context_stages_advance() {
    let ctx: Ctx = WaylandContext::new("registry");
    assert_eq!(ctx.stage(), Stage::Base);
    assert!(ctx.partial().is_none());
    assert!(ctx.full().is_none());
    assert_eq!(ctx.logical_size(), None);
    let mut ctx = ctx.advance_to_partial(vec![1, 2], Point::new(4, 3));
    assert_eq!(ctx.stage(), Stage::Partial);
    assert_eq!(*ctx.base().resources(), "registry");
    assert_eq!(ctx.logical_size(), Some(Point::new(4, 3)));
    ctx.partial_mut().unwrap().pool_mut().push(3);
    assert_eq!(*ctx.partial().unwrap().pool(), vec![1, 2, 3]);
    assert!(ctx.full_mut().is_none());
    let mut ctx = ctx.advance_to_full(7);
    assert_eq!(ctx.stage(), Stage::Full);
    *ctx.full_mut().unwrap().resources_mut() += 1;
    assert_eq!(*ctx.full().unwrap().resources(), 8);
    *ctx.base_mut().resources_mut() = "other";
    assert_eq!(*ctx.base().resources(), "other");
    assert_eq!(*ctx.partial().unwrap().pool(), vec![1, 2, 3]);
}

#[test]
fn phases_move_forward() {
    let ctx: Ctx = WaylandContext::new("registry");
    let state = AppState::BaseApp(BaseApp);
    assert_eq!(state.current_phase(), StatePhase::Done);
    assert!(!state.ready_for_next(ctx.stage()));
    let ctx = ctx.advance_to_partial(vec![], Point::new(2, 1));
    assert!(state.ready_for_next(ctx.stage()));
    let state = state.next_app(&ctx).unwrap();
    let mut shot = match state {
        AppState::ScreenshotApp(s) => s,
        _ => panic!("expected the capture phase"),
    };
    assert!(!AppState::ScreenshotApp(ScreenshotApp::new()).ready_for_next(Stage::Full));
    shot.on_buffer(FrameInfo { width: 2, height: 1, stride: 8, format: PixelFormat::Xrgb8888 }).unwrap();
    shot.on_ready(vec![1, 2, 3, 4, 5, 6, 7, 8]).unwrap();
    let state = AppState::ScreenshotApp(shot);
    assert_eq!(state.current_phase(), StatePhase::Done);
    assert!(!state.ready_for_next(ctx.stage()));
    let ctx = ctx.advance_to_full(0);
    assert!(state.ready_for_next(ctx.stage()));
    let state = state.next_app(&ctx).unwrap();
    let sel = match &state {
        AppState::SelectionApp(s) => s,
        _ => panic!("expected the selection phase"),
    };
    assert_eq!(*sel.state(), SelectionState::Waiting);
    assert_eq!((sel.width(), sel.height()), (2, 1));
    assert_eq!(*sel.image(), vec![1, 2, 3, 4, 5, 6, 7, 8]);
    assert_eq!(state.current_phase(), StatePhase::Active);
    assert!(!state.ready_for_next(ctx.stage()));
}

#[test]
fn small_image_is_refused() {
    let ctx: Ctx = WaylandContext::new("r").advance_to_partial(vec![], Point::new(3, 3)).advance_to_full(0);
    let shot = ScreenshotApp { image: Some(vec![0; 35]), frame: None };
    assert!(matches!(AppState::ScreenshotApp(shot).next_app(&ctx), Err(Error::ImageTooSmall)));
}
