use prtsc_wayland::points::{Point, Rectangle};
use prtsc_wayland::rect_fmt::RectFmt;
use prtsc_wayland::region::crop_rgb;

#[test]
fn crop_reorders_channels() {
    // 3 by 2 pixels, each pixel's bytes are (b, g, r, x) = (10p, 10p+1, 10p+2, 10p+3)
    let image: Vec<u8> = (0..6u8).flat_map(|p| [10 * p, 10 * p + 1, 10 * p + 2, 10 * p + 3]).collect();
    let out = crop_rgb(&image, 3, Rectangle::new(Point::new(1, 0), 2, 2));
    assert_eq!(out, vec![12, 11, 10, 22, 21, 20, 42, 41, 40, 52, 51, 50]);
    let out = crop_rgb(&image, 3, Rectangle::new(Point::new(0, 1), 1, 1));
    assert_eq!(out, vec![32, 31, 30]);
    assert!(crop_rgb(&image, 3, Rectangle::new(Point::new(2, 1), 0, 1)).is_empty());
}

fn render(fmt: &str, name: Option<&str>) -> String {
    RectFmt { rect: Rectangle::new(Point::new(5, 17), 640, 480), fmt, output_name: name }.render()
}

#[test]
fn default_selection_format() {
    assert_eq!(render("%x,%y %wx%h%n", None), "5,17 640x480\n");
    assert_eq!(render("%X %Y %W %H", None), "5 17 640 480");
}

#[test]
fn output_name_directive() {
    assert_eq!(render("on %o", Some("DP-1")), "on DP-1");
    assert_eq!(render("on %o", None), "on <unknown>");
}

#[test]
fn percent_and_unknown_directives() {
    assert_eq!(render("100%%", None), "100%");
    assert_eq!(render("%%x", None), "%x");
    assert_eq!(render("%%%x", None), "%5");
    assert_eq!(render("a%qb", None), "a%qb");
    assert_eq!(render("end%", None), "end%");
    assert_eq!(render("", None), "");
    assert_eq!(render("plain", None), "plain");
}
