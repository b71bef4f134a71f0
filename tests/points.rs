use prtsc_wayland::points::{Direction, Figure, Line, Point, Quater, Rectangle};

#[test]
fn quater_tests() {
    // a, b, expected:
    let expected = &[
        (Point::new(5, 5), Point::new(6, 6), Quater::BottomRight),
        (Point::new(5, 5), Point::new(4, 6), Quater::BottomLeft),
        (Point::new(5, 5), Point::new(4, 4), Quater::TopLeft),
        (Point::new(5, 5), Point::new(6, 4), Quater::TopRight),
        (Point::new(5, 5), Point::new(5, 6), Quater::AxisY),
        (Point::new(5, 5), Point::new(6, 5), Quater::AxisX),
        (Point::new(5, 5), Point::new(5, 5), Quater::Centre),
    ];

    for (a, b, expected) in expected {
        let actual = a.quater(b);

        assert_eq!(*expected, actual, "Failed for a = {a:?}, b = {b:?}");
    }
}

fn around(c: Point) -> Vec<Point> {
    let mut v = Vec::new();
    for dx in 0..3u32 {
        for dy in 0..3u32 {
            v.push(Point::new(c.x + dx - 1, c.y + dy - 1));
        }
    }
    v
}

#[test]
fn quater_reflects_between_points() {
    let c = Point::new(5, 5);
    for q in around(c) {
        assert_eq!(q.quater(&c), c.quater(&q).opposite());
    }
    assert_eq!(Quater::TopLeft.opposite(), Quater::BottomRight);
    assert_eq!(Quater::TopRight.opposite(), Quater::BottomLeft);
    assert_eq!(Quater::AxisX.opposite(), Quater::AxisX);
    assert_eq!(Quater::Centre.opposite(), Quater::Centre);
}

#[test]
fn same_quater() {
    let c = Point::new(5, 5);
    assert!(c.is_same_quater(&Point::new(6, 7), &Point::new(9, 9)));
    assert!(!c.is_same_quater(&Point::new(6, 7), &Point::new(4, 9)));
    assert!(c.is_same_quater(&Point::new(6, 5), &Point::new(9, 5)));
}

#[test]
fn rectangle_from_diagonal_points() {
    let r = Rectangle::from_two_points(Point::new(5, 5), Point::new(10, 10)).unwrap();
    assert_eq!(r, Rectangle::new(Point::new(5, 5), 5, 5));
    let r = Rectangle::from_two_points(Point::new(10, 2), Point::new(3, 8)).unwrap();
    assert_eq!(r, Rectangle::new(Point::new(3, 2), 7, 6));
    let r = Rectangle::from_two_points(Point::new(3, 8), Point::new(10, 2)).unwrap();
    assert_eq!(r, Rectangle::new(Point::new(3, 2), 7, 6));
}

#[test]
fn rectangle_in_all_directions() {
    let c = Point::new(5, 5);
    for q in around(c) {
        let r = Rectangle::from_two_points(c.clone(), q.clone());
        if q.x != c.x && q.y != c.y {
            let r = r.unwrap();
            assert!(r.width > 0 && r.height > 0);
            let far = Point::new(r.start.x + r.width, r.start.y + r.height);
            let tr = Point::new(r.start.x + r.width, r.start.y);
            let bl = Point::new(r.start.x, r.start.y + r.height);
            let pair = |a: &Point, b: &Point| (*a == c && *b == q) || (*a == q && *b == c);
            assert!(pair(&r.start, &far) || pair(&tr, &bl));
        } else {
            assert!(r.is_none());
        }
    }
}

#[test]
fn axis_points_give_lines() {
    assert!(Rectangle::from_two_points(Point::new(5, 5), Point::new(10, 5)).is_none());
    assert!(Rectangle::from_two_points(Point::new(5, 5), Point::new(5, 5)).is_none());
    let l = Line::from_two_points(Point::new(10, 5), Point::new(5, 5)).unwrap();
    assert_eq!(l, Line { start: Point::new(5, 5), length: 5, direction: Direction::Horizontal });
    let l = Line::from_two_points(Point::new(5, 9), Point::new(5, 2)).unwrap();
    assert_eq!(l, Line { start: Point::new(5, 2), length: 7, direction: Direction::Vertical });
    assert!(Line::from_two_points(Point::new(5, 5), Point::new(6, 6)).is_none());
    assert!(Line::from_two_points(Point::new(5, 5), Point::new(5, 5)).is_none());
}

#[test]
fn figure_of_two_points() {
    assert_eq!(Figure::from_two_points(Point::new(1, 1), Point::new(1, 1)), Figure::Point(Point::new(1, 1)));
    assert_eq!(
        Figure::from_two_points(Point::new(1, 1), Point::new(1, 4)),
        Figure::Line(Line { start: Point::new(1, 1), length: 3, direction: Direction::Vertical })
    );
    assert_eq!(
        Figure::from_two_points(Point::new(4, 1), Point::new(1, 3)),
        Figure::Rectangle(Rectangle::new(Point::new(1, 1), 3, 2))
    );
}
