use prtsc_wayland::draw::{copy_rect, dim_crosshair, dim_rect, dim_u8, fill_crosshair, Damage};
use prtsc_wayland::points::{Point, Rectangle};
use prtsc_wayland::selection::update_selection_partial;

const W: u32 = 6;
const H: u32 = 5;

fn image() -> Vec<u8> {
    (0..(4 * W * H) as usize).map(|i| (i % 200 + 20) as u8).collect()
}

fn pixel(buf: &[u8], x: u32, y: u32) -> &[u8] {
    let i = ((y * W + x) * 4) as usize;
    &buf[i..i + 4]
}

#[test]
fn copy_rect_includes_both_corners() {
    let img = image();
    let mut canvas = vec![0u8; img.len()];
    let mut damage = Vec::new();
    copy_rect(Rectangle::new(Point::new(1, 1), 2, 1), &mut canvas, &img, W, H, &mut damage);
    assert_eq!(damage, vec![Damage { x: 1, y: 1, width: 3, height: 2 }]);
    for y in 0..H {
        for x in 0..W {
            let inside = (1..=3).contains(&x) && (1..=2).contains(&y);
            let expected: Vec<u8> = if inside { pixel(&img, x, y).to_vec() } else { vec![0; 4] };
            assert_eq!(pixel(&canvas, x, y), &expected[..], "pixel ({x}, {y})");
        }
    }
}

#[test]
fn dim_rect_dims_inside_only() {
    let img = image();
    let mut canvas = vec![9u8; img.len()];
    let mut damage = Vec::new();
    dim_rect(Rectangle::new(Point::new(0, 3), 5, 1), &mut canvas, &img, W, H, &mut damage);
    assert_eq!(damage, vec![Damage { x: 0, y: 3, width: 6, height: 2 }]);
    for y in 0..H {
        for x in 0..W {
            let expected: Vec<u8> =
                if y >= 3 { pixel(&img, x, y).iter().map(|b| dim_u8(*b)).collect() } else { vec![9; 4] };
            assert_eq!(pixel(&canvas, x, y), &expected[..], "pixel ({x}, {y})");
        }
    }
}

#[test]
fn crosshairs_cover_row_and_column() {
    let img = image();
    let mut canvas = vec![0u8; img.len()];
    let mut damage = Vec::new();
    fill_crosshair(Point::new(2, 3), &mut canvas, &img, W, H, &mut damage);
    assert_eq!(
        damage,
        vec![Damage { x: 2, y: 0, width: 1, height: H }, Damage { x: 0, y: 3, width: W, height: 1 }]
    );
    for y in 0..H {
        for x in 0..W {
            let on = x == 2 || y == 3;
            assert_eq!(pixel(&canvas, x, y), if on { &[255u8; 4][..] } else { &[0u8; 4][..] });
        }
    }
    dim_crosshair(Point::new(2, 3), &mut canvas, &img, W, H, &mut damage);
    assert_eq!(damage.len(), 4);
    let dimmed: Vec<u8> = pixel(&img, 2, 0).iter().map(|b| dim_u8(*b)).collect();
    assert_eq!(pixel(&canvas, 2, 0), &dimmed[..]);
    assert_eq!(pixel(&canvas, 0, 0), &[0u8; 4][..]);
}

#[test]
fn partial_update_grows_by_strips() {
    let img = image();
    let dim_all: Vec<u8> = img.iter().map(|b| dim_u8(*b)).collect();
    let mut canvas = dim_all.clone();
    let mut damage = Vec::new();
    let a = Point::new(1, 1);
    copy_rect(Rectangle::new(a.clone(), 2, 2), &mut canvas, &img, W, H, &mut damage);
    damage.clear();
    update_selection_partial(a.clone(), Point::new(3, 3), Point::new(4, 3), &mut canvas, &img, W, H, &mut damage);
    // only the new column strip is copied
    assert_eq!(damage, vec![Damage { x: 3, y: 1, width: 2, height: 3 }]);
    for y in 0..H {
        for x in 0..W {
            let inside = (1..=4).contains(&x) && (1..=3).contains(&y);
            let expected = if inside { pixel(&img, x, y) } else { pixel(&dim_all, x, y) };
            assert_eq!(pixel(&canvas, x, y), expected, "pixel ({x}, {y})");
        }
    }
}

#[test]
fn partial_update_across_quadrants_redraws_whole_boxes() {
    let img = image();
    let dim_all: Vec<u8> = img.iter().map(|b| dim_u8(*b)).collect();
    let mut canvas = dim_all.clone();
    let mut damage = Vec::new();
    let a = Point::new(2, 2);
    copy_rect(Rectangle::new(a.clone(), 2, 2), &mut canvas, &img, W, H, &mut damage);
    damage.clear();
    update_selection_partial(a.clone(), Point::new(4, 4), Point::new(0, 0), &mut canvas, &img, W, H, &mut damage);
    assert_eq!(
        damage,
        vec![Damage { x: 2, y: 2, width: 3, height: 3 }, Damage { x: 0, y: 0, width: 3, height: 3 }]
    );
    for y in 0..H {
        for x in 0..W {
            let inside = x <= 2 && y <= 2;
            let expected = if inside { pixel(&img, x, y) } else { pixel(&dim_all, x, y) };
            assert_eq!(pixel(&canvas, x, y), expected, "pixel ({x}, {y})");
        }
    }
}

#[test]
fn partial_update_without_move_changes_nothing() {
    let img = image();
    let mut canvas: Vec<u8> = img.iter().map(|b| dim_u8(*b)).collect();
    let before = canvas.clone();
    let mut damage = Vec::new();
    update_selection_partial(Point::new(1, 1), Point::new(4, 3), Point::new(4, 3), &mut canvas, &img, W, H, &mut damage);
    assert!(damage.is_empty());
    assert_eq!(canvas, before);
}
