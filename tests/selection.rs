use prtsc_wayland::draw::{dim_u8, Damage};
use prtsc_wayland::phase::StatePhase;
use prtsc_wayland::points::{Point, Rectangle};
use prtsc_wayland::selection::{Key, SelectionApp, SelectionState};

const W: u32 = 16;
const H: u32 = 12;

fn image() -> Vec<u8> {
    (0..(4 * W * H) as usize).map(|i| (i * 7 % 251) as u8).collect()
}

fn app() -> (SelectionApp, Vec<u8>) {
    let mut app = SelectionApp::new(image(), W, H);
    let mut canvas = vec![0u8; (4 * W * H) as usize];
    app.on_redraw(&mut canvas);
    (app, canvas)
}

fn all_dim() -> Vec<u8> {
    image().iter().map(|b| dim_u8(*b)).collect()
}

fn selection_view(a: Point, c: Point) -> Vec<u8> {
    let img = image();
    let mut out = vec![0u8; img.len()];
    for y in 0..H {
        for x in 0..W {
            for k in 0..4 {
                let i = ((y * W + x) * 4 + k) as usize;
                let cross = x == a.x || y == a.y || x == c.x || y == c.y;
                let inside = a.x.min(c.x) <= x && x <= a.x.max(c.x) && a.y.min(c.y) <= y && y <= a.y.max(c.y);
                out[i] = if cross { 255 } else if inside { img[i] } else { dim_u8(img[i]) };
            }
        }
    }
    out
}

fn covered(d: &[Damage], x: u32, y: u32) -> bool {
    d.iter().any(|r| r.x <= x && x < r.x + r.width && r.y <= y && y < r.y + r.height)
}

fn check_damage(before: &[u8], after: &[u8], d: &[Damage]) {
    for y in 0..H {
        for x in 0..W {
            let i = ((y * W + x) * 4) as usize;
            if before[i..i + 4] != after[i..i + 4] {
                assert!(covered(d, x, y), "pixel ({x}, {y}) changed outside the damage");
            }
        }
    }
}

#[test]
fn dim_halves_brightness() {
    assert_eq!(dim_u8(200), 100);
    assert_eq!(dim_u8(255), 127);
    assert_eq!(dim_u8(1), 0);
    assert_eq!(dim_u8(0), 0);
}

#[test]
fn waiting_dims_once() {
    let mut app = SelectionApp::new(image(), W, H);
    let mut canvas = vec![0u8; (4 * W * H) as usize];
    let d = app.on_redraw(&mut canvas);
    assert_eq!(d, vec![Damage { x: 0, y: 0, width: W, height: H }]);
    assert_eq!(canvas, all_dim());
    let d = app.on_redraw(&mut canvas);
    assert!(d.is_empty());
    assert!(!app.needs_frame());
}

#[test]
fn axis_release_resets_to_waiting() {
    let (mut app, _) = app();
    app.on_mouse_press(Point::new(5, 5));
    app.on_mouse_move(Point::new(10, 5));
    app.on_mouse_release();
    assert_eq!(app.selected_region(), None);
    assert_eq!(*app.state(), SelectionState::Waiting);
    assert_eq!(app.current_phase(), StatePhase::Active);
}

#[test]
fn diagonal_release_selects() {
    let (mut app, mut canvas) = app();
    app.on_mouse_press(Point::new(5, 5));
    app.on_mouse_move(Point::new(10, 10));
    app.on_redraw(&mut canvas);
    app.on_mouse_release();
    assert_eq!(app.selected_region(), Some(Rectangle::new(Point::new(5, 5), 5, 5)));
    assert_eq!(app.current_phase(), StatePhase::Done);
}

#[test]
fn release_uses_drawn_position() {
    let (mut app, mut canvas) = app();
    app.on_mouse_press(Point::new(5, 5));
    app.on_mouse_move(Point::new(10, 10));
    app.on_mouse_release();
    assert_eq!(app.selected_region(), None);
    assert_eq!(*app.state(), SelectionState::Waiting);
    app.on_redraw(&mut canvas);
    assert_eq!(canvas, all_dim());
}

#[test]
fn escape_aborts_or_resets() {
    let (mut app, mut canvas) = app();
    app.on_mouse_press(Point::new(3, 3));
    app.on_mouse_move(Point::new(8, 9));
    app.on_redraw(&mut canvas);
    assert!(app.on_key_press(Key::Escape));
    assert_eq!(*app.state(), SelectionState::Waiting);
    app.on_redraw(&mut canvas);
    assert_eq!(canvas, all_dim());
    assert!(!app.on_key_press(Key::Escape));
    assert_eq!(*app.state(), SelectionState::Abort);
    assert_eq!(app.selected_region(), None);
    assert_eq!(app.current_phase(), StatePhase::Done);
}

#[test]
fn second_redraw_changes_nothing() {
    let (mut app, mut canvas) = app();
    app.on_mouse_press(Point::new(4, 4));
    app.on_mouse_move(Point::new(9, 7));
    let d = app.on_redraw(&mut canvas);
    assert!(!d.is_empty());
    let before = canvas.clone();
    let d = app.on_redraw(&mut canvas);
    assert!(d.is_empty());
    assert_eq!(canvas, before);
    app.on_mouse_move(Point::new(9, 7));
    let d = app.on_redraw(&mut canvas);
    assert!(d.is_empty());
    assert_eq!(canvas, before);
}

#[test]
fn moves_between_frames_coalesce() {
    let (mut app, mut canvas) = app();
    app.on_mouse_press(Point::new(4, 4));
    app.on_redraw(&mut canvas);
    app.on_mouse_move(Point::new(6, 9));
    app.on_mouse_move(Point::new(12, 2));
    app.on_mouse_move(Point::new(10, 8));
    app.on_redraw(&mut canvas);
    assert_eq!(canvas, selection_view(Point::new(4, 4), Point::new(10, 8)));
    match app.state() {
        SelectionState::BeginSelection(d) => {
            assert_eq!(d.current, Point::new(10, 8));
            assert_eq!(d.pending, None);
        }
        other => panic!("unexpected state {other:?}"),
    }
}

#[test]
fn incremental_redraw_matches_full_view() {
    let (mut app, mut canvas) = app();
    let a = Point::new(7, 6);
    app.on_mouse_press(a.clone());
    let path = [
        (9, 8), (11, 9), (10, 10), (8, 7), (13, 11), (12, 3), (9, 1), (3, 2), (1, 1), (5, 10), (7, 11),
        (7, 6), (15, 6), (2, 6), (0, 0), (15, 11), (8, 8),
    ];
    for (x, y) in path {
        app.on_mouse_move(Point::new(x, y));
        let before = canvas.clone();
        let d = app.on_redraw(&mut canvas);
        assert_eq!(canvas, selection_view(a.clone(), Point::new(x, y)), "after moving to ({x}, {y})");
        check_damage(&before, &canvas, &d);
    }
}

#[test]
fn panning_moves_the_anchor() {
    let (mut app, mut canvas) = app();
    app.on_mouse_press(Point::new(4, 4));
    app.on_mouse_move(Point::new(8, 7));
    app.on_redraw(&mut canvas);
    app.on_key_press(Key::Space);
    app.on_mouse_move(Point::new(10, 8));
    let before = canvas.clone();
    let d = app.on_redraw(&mut canvas);
    assert_eq!(canvas, selection_view(Point::new(6, 5), Point::new(10, 8)));
    check_damage(&before, &canvas, &d);
    app.on_mouse_move(Point::new(2, 1));
    app.on_redraw(&mut canvas);
    assert_eq!(canvas, selection_view(Point::new(0, 0), Point::new(2, 1)));
    app.on_key_release(Key::Space);
    app.on_mouse_move(Point::new(9, 9));
    app.on_redraw(&mut canvas);
    assert_eq!(canvas, selection_view(Point::new(0, 0), Point::new(9, 9)));
    app.on_mouse_release();
    assert_eq!(app.selected_region(), Some(Rectangle::new(Point::new(0, 0), 9, 9)));
}

#[test]
fn positions_are_kept_on_the_surface() {
    let (mut app, mut canvas) = app();
    app.on_mouse_press(Point::new(100, 3));
    app.on_mouse_move(Point::new(2, 500));
    app.on_redraw(&mut canvas);
    assert_eq!(canvas, selection_view(Point::new(W - 1, 3), Point::new(2, H - 1)));
}

#[test]
fn full_redraw_on_request() {
    let (mut app, mut canvas) = app();
    app.on_mouse_press(Point::new(3, 3));
    app.on_mouse_move(Point::new(9, 8));
    app.on_redraw(&mut canvas);
    let mut fresh = vec![0u8; canvas.len()];
    app.request_full_redraw();
    assert!(app.needs_frame());
    app.on_redraw(&mut fresh);
    assert_eq!(fresh, selection_view(Point::new(3, 3), Point::new(9, 8)));
}
