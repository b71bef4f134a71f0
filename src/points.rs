use vstd::prelude::*;

verus! {

/// Coordinate type of a point on the surface.
pub type PointInt = u32;

/// A point on the surface; `y` grows downwards.
#[derive(Clone, Copy, Debug, PartialEq, Eq, Structural)]
pub struct Point {
    pub x: PointInt,
    pub y: PointInt,
}

/// An axis-aligned rectangle given by its top left corner and its extent.
#[derive(Clone, Copy, Debug, PartialEq, Eq, Structural)]
pub struct Rectangle {
    /// Top left point of rectangle
    pub start: Point,
    /// Width of rectangle, always non-negative
    pub width: PointInt,
    /// Height of rectangle, always non-negative
    pub height: PointInt,
}

/// Where a point lies relative to a reference point.
#[derive(Clone, Copy, Debug, PartialEq, Eq, Structural)]
pub enum Quater {
    TopRight,
    TopLeft,
    BottomLeft,
    BottomRight,
    AxisX,
    AxisY,
    Centre,
}

/// Orientation of a line.
#[derive(Clone, Copy, Debug, PartialEq, Eq, Structural)]
pub enum Direction {
    Horizontal,
    Vertical,
}

/// An axis-aligned segment: `length` pixels from `start` along `direction`.
#[derive(Clone, Copy, Debug, PartialEq, Eq, Structural)]
pub struct Line {
    pub start: Point,
    pub length: PointInt,
    pub direction: Direction,
}

/// The figure spanned by two points.
#[derive(Clone, Copy, Debug, PartialEq, Eq, Structural)]
pub enum Figure {
    Point(Point),
    Line(Line),
    Rectangle(Rectangle),
}

pub open spec fn min_u32(a: u32, b: u32) -> u32 {
    if a <= b { a } else { b }
}

pub open spec fn max_u32(a: u32, b: u32) -> u32 {
    if a <= b { b } else { a }
}

/// Distance between two coordinates.
pub open spec fn diff(a: u32, b: u32) -> nat {
    if a <= b { (b - a) as nat } else { (a - b) as nat }
}

impl Quater {
    /// The classification seen from the other point.
    pub open spec fn reflected(self) -> Quater {
        match self {
            Quater::TopRight => Quater::BottomLeft,
            Quater::TopLeft => Quater::BottomRight,
            Quater::BottomLeft => Quater::TopRight,
            Quater::BottomRight => Quater::TopLeft,
            Quater::AxisX => Quater::AxisX,
            Quater::AxisY => Quater::AxisY,
            Quater::Centre => Quater::Centre,
        }
    }

    /// The classification seen from the other point: diagonal regions swap
    /// with their opposites, the axes and the centre stay.
    pub fn opposite(self) -> (r: Quater)
        ensures
            r == self.reflected(),
    {
        match self {
            Quater::TopRight => Quater::BottomLeft,
            Quater::TopLeft => Quater::BottomRight,
            Quater::BottomLeft => Quater::TopRight,
            Quater::BottomRight => Quater::TopLeft,
            Quater::AxisX => Quater::AxisX,
            Quater::AxisY => Quater::AxisY,
            Quater::Centre => Quater::Centre,
        }
    }
}

impl Point {
    /// Where `other` lies relative to `self`.
    pub open spec fn quater_of(self, other: Point) -> Quater {
        if self.x == other.x && self.y == other.y {
            Quater::Centre
        } else if self.x == other.x {
            Quater::AxisY
        } else if self.y == other.y {
            Quater::AxisX
        } else if self.x < other.x {
            if self.y > other.y { Quater::TopRight } else { Quater::BottomRight }
        } else {
            if self.y < other.y { Quater::BottomLeft } else { Quater::TopLeft }
        }
    }

    pub fn new(x: PointInt, y: PointInt) -> (r: Self)
        ensures
            r.x == x,
            r.y == y,
    {
        Point { x, y }
    }

    /// Classifies `point` relative to `self`.
    pub fn quater(&self, point: &Self) -> (r: Quater)
        ensures
            r == self.quater_of(*point),
    {
        if self.x == point.x && self.y == point.y {
            Quater::Centre
        } else if self.x == point.x {
            Quater::AxisY
        } else if self.y == point.y {
            Quater::AxisX
        } else if self.x < point.x {
            if self.y > point.y {
                Quater::TopRight
            } else {
                Quater::BottomRight
            }
        } else {
            if self.y < point.y {
                Quater::BottomLeft
            } else {
                Quater::TopLeft
            }
        }
    }

    /// Whether `a` and `b` lie in the same region relative to `self`.
    pub fn is_same_quater(&self, a: &Self, b: &Self) -> (r: bool)
        ensures
            r == (self.quater_of(*a) == self.quater_of(*b)),
    {
        let qa = self.quater(a);
        let qb = self.quater(b);
        qa == qb
    }
}

impl Rectangle {
    /// The rectangle whose opposite corners are `a` and `b`, if it has an area.
    pub open spec fn spanned(a: Point, b: Point) -> Option<Rectangle> {
        if a.x == b.x || a.y == b.y {
            None
        } else {
            Some(
                Rectangle {
                    start: Point { x: min_u32(a.x, b.x), y: min_u32(a.y, b.y) },
                    width: (max_u32(a.x, b.x) - min_u32(a.x, b.x)) as u32,
                    height: (max_u32(a.y, b.y) - min_u32(a.y, b.y)) as u32,
                },
            )
        }
    }

    pub open spec fn top_left(self) -> Point {
        self.start
    }

    pub open spec fn top_right(self) -> Point {
        Point { x: (self.start.x + self.width) as u32, y: self.start.y }
    }

    pub open spec fn bottom_left(self) -> Point {
        Point { x: self.start.x, y: (self.start.y + self.height) as u32 }
    }

    pub open spec fn bottom_right(self) -> Point {
        Point { x: (self.start.x + self.width) as u32, y: (self.start.y + self.height) as u32 }
    }

    pub fn new(start: Point, width: PointInt, height: PointInt) -> (r: Self)
        ensures
            r.start == start,
            r.width == width,
            r.height == height,
    {
        Self { start, width, height }
    }

    /// Make rectangle by two points. Returns [`None`] if points are same or located in one axis
    /// (so rectangle never degenerate).
    pub fn from_two_points(a: Point, b: Point) -> (r: Option<Self>)
        ensures
            r == Rectangle::spanned(a, b),
    {
        let (x0, x1) = if a.x <= b.x { (a.x, b.x) } else { (b.x, a.x) };
        let (y0, y1) = if a.y <= b.y { (a.y, b.y) } else { (b.y, a.y) };
        let width = x1 - x0;
        let height = y1 - y0;
        if width == 0 || height == 0 {
            None
        } else {
            Some(Self { start: Point { x: x0, y: y0 }, width, height })
        }
    }
}

impl Line {
    /// The segment between `a` and `b`, if they share exactly one coordinate.
    pub open spec fn spanned(a: Point, b: Point) -> Option<Line> {
        if a.x == b.x && a.y == b.y {
            None
        } else if a.y == b.y {
            Some(
                Line {
                    start: Point { x: min_u32(a.x, b.x), y: a.y },
                    length: diff(a.x, b.x) as u32,
                    direction: Direction::Horizontal,
                },
            )
        } else if a.x == b.x {
            Some(
                Line {
                    start: Point { x: a.x, y: min_u32(a.y, b.y) },
                    length: diff(a.y, b.y) as u32,
                    direction: Direction::Vertical,
                },
            )
        } else {
            None
        }
    }

    /// Make line by two points that share exactly one coordinate; [`None`] for
    /// equal points and for points that share none.
    pub fn from_two_points(a: Point, b: Point) -> (r: Option<Self>)
        ensures
            r == Line::spanned(a, b),
    {
        if a.x == b.x && a.y == b.y {
            None
        } else if a.y == b.y {
            let (x0, x1) = if a.x <= b.x { (a.x, b.x) } else { (b.x, a.x) };
            Some(Line { start: Point { x: x0, y: a.y }, length: x1 - x0, direction: Direction::Horizontal })
        } else if a.x == b.x {
            let (y0, y1) = if a.y <= b.y { (a.y, b.y) } else { (b.y, a.y) };
            Some(Line { start: Point { x: a.x, y: y0 }, length: y1 - y0, direction: Direction::Vertical })
        } else {
            None
        }
    }
}

impl Figure {
    /// The figure of two points: a point when they are equal, a line when they
    /// share one coordinate, a rectangle otherwise.
    pub open spec fn spanned(a: Point, b: Point) -> Figure {
        match a.quater_of(b) {
            Quater::Centre => Figure::Point(a),
            Quater::AxisX | Quater::AxisY => Figure::Line(Line::spanned(a, b).unwrap()),
            _ => Figure::Rectangle(Rectangle::spanned(a, b).unwrap()),
        }
    }

    pub fn from_two_points(a: Point, b: Point) -> (r: Figure)
        ensures
            r == Figure::spanned(a, b),
    {
        match a.quater(&b) {
            Quater::Centre => Figure::Point(a),
            Quater::AxisX | Quater::AxisY => match Line::from_two_points(a, b) {
                Some(l) => Figure::Line(l),
                None => Figure::Point(a),
            },
            _ => match Rectangle::from_two_points(a, b) {
                Some(r) => Figure::Rectangle(r),
                None => Figure::Point(a),
            },
        }
    }
}

/// Seen from each other, two points lie in reflected regions: TopLeft and
/// BottomRight swap, TopRight and BottomLeft swap, the axes and the centre
/// stay.
pub proof fn lemma_quater_reflection(p: Point, q: Point)
    ensures
        q.quater_of(p) == p.quater_of(q).reflected(),
        p.quater_of(q).reflected().reflected() == p.quater_of(q),
{
}

/// Two points that differ in both coordinates span a rectangle with positive
/// width and height whose opposite corners are exactly the two points.
pub proof fn lemma_rectangle_corners(a: Point, b: Point)
    requires
        a.x != b.x,
        a.y != b.y,
    ensures
        Rectangle::spanned(a, b).is_some(),
        Rectangle::spanned(a, b).unwrap().width > 0,
        Rectangle::spanned(a, b).unwrap().height > 0,
        ({
            let r = Rectangle::spanned(a, b).unwrap();
            ||| (r.top_left() == a && r.bottom_right() == b)
            ||| (r.top_left() == b && r.bottom_right() == a)
            ||| (r.top_right() == a && r.bottom_left() == b)
            ||| (r.top_right() == b && r.bottom_left() == a)
        }),
{
}

/// Two points that share exactly one coordinate span no rectangle, and the
/// line between them runs along the shared axis with the distance as length.
pub proof fn lemma_axis_points(a: Point, b: Point)
    requires
        (a.x == b.x) != (a.y == b.y),
    ensures
        Rectangle::spanned(a, b).is_none(),
        Line::spanned(a, b).is_some(),
        a.y == b.y ==> Line::spanned(a, b).unwrap().direction == Direction::Horizontal
            && Line::spanned(a, b).unwrap().length == diff(a.x, b.x),
        a.x == b.x ==> Line::spanned(a, b).unwrap().direction == Direction::Vertical
            && Line::spanned(a, b).unwrap().length == diff(a.y, b.y),
{
}

} // verus!
