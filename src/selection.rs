use vstd::prelude::*;

use crate::draw::{
    cross_column, cross_row, dim_crosshair, fill_crosshair, paint_area, paints_cross, Paint, paints, rect_area, copy_rect, damaged, dim_rect, dimmed, on_cross, on_surface, point_fits, px, surface_buffers, Damage,
};
use crate::phase::StatePhase;
use crate::points::{diff, max_u32, min_u32, Point, Rectangle};

verus! {

/// Whether pixel (`x`, `y`) lies in the box spanned by `a` and `b`, both
/// corners included.
pub open spec fn in_box(a: Point, b: Point, x: int, y: int) -> bool {
    min_u32(a.x, b.x) <= x <= max_u32(a.x, b.x) && min_u32(a.y, b.y) <= y <= max_u32(a.y, b.y)
}

/// The value of a channel when the box of `a` and `b` is highlighted: the
/// image inside the box, the dimmed image outside.
pub open spec fn box_value(image: Seq<u8>, w: int, a: Point, b: Point, x: int, y: int, k: int) -> u8 {
    if in_box(a, b, x, y) {
        px(image, w, x, y, k)
    } else {
        dimmed(px(image, w, x, y, k))
    }
}

/// The canvas shows the box of `anchor` and `corner` away from the crosshair
/// through `anchor`, except that on the crosshair through `corner` pixels
/// inside the box may be dimmed.
pub open spec fn box_ready(canvas: Seq<u8>, image: Seq<u8>, w: int, h: int, anchor: Point, corner: Point) -> bool {
    forall|x: int, y: int, k: int|
        on_surface(w, h, x, y, k) && !on_cross(anchor, x, y) ==> {
            let v = #[trigger] px(canvas, w, x, y, k);
            &&& (!in_box(anchor, corner, x, y) ==> v == dimmed(px(image, w, x, y, k)))
            &&& (in_box(anchor, corner, x, y) && !on_cross(corner, x, y) ==> v == px(image, w, x, y, k))
        }
}

/// The canvas shows the box of `a` and `b` away from the crosshairs
/// through `a` and `b`.
pub open spec fn box_shown(canvas: Seq<u8>, image: Seq<u8>, w: int, h: int, a: Point, b: Point) -> bool {
    forall|x: int, y: int, k: int|
        on_surface(w, h, x, y, k) && !on_cross(a, x, y) && !on_cross(b, x, y) ==> #[trigger] px(
            canvas,
            w,
            x,
            y,
            k,
        ) == box_value(image, w, a, b, x, y, k)
}

/// Whether `after` keeps `before` on every pixel that no region of `d`
/// covers.
pub open spec fn kept_outside(before: Seq<u8>, after: Seq<u8>, w: int, h: int, d: Seq<Damage>) -> bool {
    &&& after.len() == before.len()
    &&& forall|x: int, y: int, k: int|
        on_surface(w, h, x, y, k) && !damaged(d, x, y) ==> #[trigger] px(after, w, x, y, k) == px(
            before,
            w,
            x,
            y,
            k,
        )
}

/// Whether `after` extends `before` by regions within a `w` by `h` surface.
pub open spec fn extends(before: Seq<Damage>, after: Seq<Damage>, w: int, h: int) -> bool {
    &&& before.len() <= after.len()
    &&& forall|i: int| 0 <= i < before.len() ==> after[i] == before[i]
    &&& forall|i: int| before.len() <= i < after.len() ==> (#[trigger] after[i]).within(w, h)
}

/// Painting an area and recording it keeps every pixel that the records do
/// not cover.
proof fn lemma_paint_kept(
    c0: Seq<u8>,
    c1: Seq<u8>,
    c2: Seq<u8>,
    image: Seq<u8>,
    w: int,
    h: int,
    d1: Seq<Damage>,
    area: Damage,
    paint: Paint,
)
    requires
        kept_outside(c0, c1, w, h, d1),
        paints(c1, c2, image, w, h, area, paint),
    ensures
        kept_outside(c0, c2, w, h, d1.push(area)),
{
    let d2 = d1.push(area);
    assert forall|x: int, y: int, k: int|
        on_surface(w, h, x, y, k) && !damaged(d2, x, y) implies #[trigger] px(c2, w, x, y, k) == px(
            c0,
            w,
            x,
            y,
            k,
        ) by {
        assert(d2[d1.len() as int] == area);
        if damaged(d1, x, y) {
            let i = choose|i: int| 0 <= i < d1.len() && (#[trigger] d1[i]).covers(x, y);
            assert(d2[i] == d1[i]);
        }
    }
}

/// Every pixel on the crosshairs through `a` and `b` is at full brightness.
pub open spec fn crosses_white(canvas: Seq<u8>, w: int, h: int, a: Point, b: Point) -> bool {
    forall|x: int, y: int, k: int|
        on_surface(w, h, x, y, k) && (on_cross(a, x, y) || on_cross(b, x, y)) ==> #[trigger] px(
            canvas,
            w,
            x,
            y,
            k,
        ) == 255u8
}

/// Every pixel shows the dimmed image.
pub open spec fn all_dimmed(canvas: Seq<u8>, image: Seq<u8>, w: int, h: int) -> bool {
    forall|x: int, y: int, k: int|
        on_surface(w, h, x, y, k) ==> #[trigger] px(canvas, w, x, y, k) == dimmed(px(image, w, x, y, k))
}

/// Whether `v` lies between `a` and `b`, both included.
pub open spec fn between(v: int, a: u32, b: u32) -> bool {
    min_u32(a, b) <= v <= max_u32(a, b)
}

/// Whether pixel (`x`, `y`) lies on the edge strips that change when the
/// corner of a box anchored at `init` moves from `previous` to `pending`:
/// inside the old or the new box, and between the two corners in a
/// coordinate.
pub open spec fn in_strips(init: Point, previous: Point, pending: Point, x: int, y: int) -> bool {
    &&& in_box(init, previous, x, y) || in_box(init, pending, x, y)
    &&& between(x, previous.x, pending.x) || between(y, previous.y, pending.y)
}

/// Every pixel off the edge strips of the move from `previous` to
/// `pending` is as in `c0`.
#[verifier::opaque]
spec fn kept_off_strips(c0: Seq<u8>, c: Seq<u8>, w: int, h: int, init: Point, previous: Point, pending: Point) -> bool {
    forall|x: int, y: int, k: int|
        on_surface(w, h, x, y, k) && !in_strips(init, previous, pending, x, y) ==> #[trigger] px(c, w, x, y, k)
            == px(c0, w, x, y, k)
}

/// Painting an area that lies on the edge strips keeps every pixel off them.
proof fn lemma_paint_on_strips(
    c0: Seq<u8>,
    c1: Seq<u8>,
    c2: Seq<u8>,
    image: Seq<u8>,
    w: int,
    h: int,
    area: Damage,
    paint: Paint,
    init: Point,
    previous: Point,
    pending: Point,
)
    requires
        kept_off_strips(c0, c1, w, h, init, previous, pending),
        paints(c1, c2, image, w, h, area, paint),
        forall|x: int, y: int| #[trigger] area.covers(x, y) ==> in_strips(init, previous, pending, x, y),
    ensures
        kept_off_strips(c0, c2, w, h, init, previous, pending),
{
    reveal(kept_off_strips);
    assert forall|x: int, y: int, k: int|
        on_surface(w, h, x, y, k) && !in_strips(init, previous, pending, x, y) implies #[trigger] px(c2, w, x, y, k)
        == px(c0, w, x, y, k) by {
        assert(!area.covers(x, y));
    }
}

/// The strip dimmed when the corner moves towards the anchor in x lies on
/// the edge strips.
proof fn lemma_dim_x_strip(init: Point, previous: Point, pending: Point)
    requires
        init.quater_of(pending) == init.quater_of(previous),
        diff(init.x, pending.x) < diff(init.x, previous.x),
        Rectangle::spanned(previous, Point { x: pending.x, y: init.y }) is Some,
    ensures
        forall|x: int, y: int|
            #[trigger] rect_area(Rectangle::spanned(previous, Point { x: pending.x, y: init.y }).unwrap()).covers(
                x,
                y,
            ) ==> in_strips(init, previous, pending, x, y),
{
}

/// The strip dimmed when the corner moves towards the anchor in y lies on
/// the edge strips.
proof fn lemma_dim_y_strip(init: Point, previous: Point, pending: Point)
    requires
        init.quater_of(pending) == init.quater_of(previous),
        diff(init.y, pending.y) < diff(init.y, previous.y),
        Rectangle::spanned(previous, Point { x: init.x, y: pending.y }) is Some,
    ensures
        forall|x: int, y: int|
            #[trigger] rect_area(Rectangle::spanned(previous, Point { x: init.x, y: pending.y }).unwrap()).covers(
                x,
                y,
            ) ==> in_strips(init, previous, pending, x, y),
{
}

/// The strip copied when the corner moves away from the anchor in x lies on
/// the edge strips.
proof fn lemma_copy_x_strip(init: Point, previous: Point, pending: Point)
    requires
        init.quater_of(pending) == init.quater_of(previous),
        diff(init.x, pending.x) > diff(init.x, previous.x),
        Rectangle::spanned(pending, Point { x: previous.x, y: init.y }) is Some,
    ensures
        forall|x: int, y: int|
            #[trigger] rect_area(Rectangle::spanned(pending, Point { x: previous.x, y: init.y }).unwrap()).covers(
                x,
                y,
            ) ==> in_strips(init, previous, pending, x, y),
{
}

/// The strip copied when the corner moves away from the anchor in y lies on
/// the edge strips.
proof fn lemma_copy_y_strip(init: Point, previous: Point, pending: Point)
    requires
        init.quater_of(pending) == init.quater_of(previous),
        diff(init.y, pending.y) > diff(init.y, previous.y),
        Rectangle::spanned(pending, Point { x: init.x, y: previous.y }) is Some,
    ensures
        forall|x: int, y: int|
            #[trigger] rect_area(Rectangle::spanned(pending, Point { x: init.x, y: previous.y }).unwrap()).covers(
                x,
                y,
            ) ==> in_strips(init, previous, pending, x, y),
{
}

fn distance(a: u32, b: u32) -> (r: u32)
    ensures
        r == diff(a, b),
{
    if a <= b {
        b - a
    } else {
        a - b
    }
}

/// Moves the highlighted box from the one of `init` and `previous` to the
/// one of `init` and `pending`. When `pending` lies in the same region
/// relative to `init` as `previous`, only the strips along the edges that
/// moved are dimmed or copied; otherwise the old box is dimmed and the new
/// one copied whole.
#[verifier::rlimit(50)]
pub fn update_selection_partial(
    init: Point,
    previous: Point,
    pending: Point,
    canvas: &mut [u8],
    image: &[u8],
    width: u32,
    height: u32,
    damage: &mut Vec<Damage>,
)
    requires
        surface_buffers(old(canvas)@, image@, width as int, height as int),
        point_fits(init, width as int, height as int),
        point_fits(previous, width as int, height as int),
        point_fits(pending, width as int, height as int),
    ensures
        final(canvas)@.len() == old(canvas)@.len(),
        box_ready(old(canvas)@, image@, width as int, height as int, init, previous) ==> box_shown(
            final(canvas)@,
            image@,
            width as int,
            height as int,
            init,
            pending,
        ),
        forall|x: int, y: int, k: int|
            on_surface(width as int, height as int, x, y, k) && !in_box(init, pending, x, y) ==> {
                let v = #[trigger] px(final(canvas)@, width as int, x, y, k);
                v == px(old(canvas)@, width as int, x, y, k) || v == dimmed(px(image@, width as int, x, y, k))
            },
        extends(old(damage)@, final(damage)@, width as int, height as int),
        kept_outside(old(canvas)@, final(canvas)@, width as int, height as int, final(damage)@),
        init.quater_of(pending) == init.quater_of(previous) ==> forall|x: int, y: int, k: int|
            on_surface(width as int, height as int, x, y, k) && !in_strips(init, previous, pending, x, y)
                ==> #[trigger] px(final(canvas)@, width as int, x, y, k) == px(old(canvas)@, width as int, x, y, k),
        pending == previous ==> final(canvas)@ == old(canvas)@ && final(damage)@ == old(damage)@,
{
    let ghost w = width as int;
    let ghost h = height as int;
    let ghost c0 = canvas@;
    let ghost d0 = damage@;
    assert(kept_outside(c0, c0, w, h, d0));
    assert(kept_off_strips(c0, c0, w, h, init, previous, pending)) by {
        reveal(kept_off_strips);
    }
    if init.is_same_quater(&pending, &previous) {
        let df_init_pending_x = distance(init.x, pending.x);
        let df_init_pending_y = distance(init.y, pending.y);
        let df_init_previous_x = distance(init.x, previous.x);
        let df_init_previous_y = distance(init.y, previous.y);

        // Dim rects
        if df_init_pending_x < df_init_previous_x {
            let proj_pending_x = Point::new(pending.x, init.y);
            if let Some(rect) = Rectangle::from_two_points(previous, proj_pending_x) {
                let ghost cb = canvas@;
                let ghost db = damage@;
                dim_rect(rect, canvas, image, width, height, damage);
                proof {
                    lemma_paint_kept(c0, cb, canvas@, image@, w, h, db, rect_area(rect), Paint::Dim);
                    lemma_dim_x_strip(init, previous, pending);
                    lemma_paint_on_strips(c0, cb, canvas@, image@, w, h, rect_area(rect), Paint::Dim, init, previous, pending);
                }
            }
        }
        if df_init_pending_y < df_init_previous_y {
            let proj_pending_y = Point::new(init.x, pending.y);
            if let Some(rect) = Rectangle::from_two_points(previous, proj_pending_y) {
                let ghost cb = canvas@;
                let ghost db = damage@;
                dim_rect(rect, canvas, image, width, height, damage);
                proof {
                    lemma_paint_kept(c0, cb, canvas@, image@, w, h, db, rect_area(rect), Paint::Dim);
                    lemma_dim_y_strip(init, previous, pending);
                    lemma_paint_on_strips(c0, cb, canvas@, image@, w, h, rect_area(rect), Paint::Dim, init, previous, pending);
                }
            }
        }
        // Copy rects
        if df_init_pending_x > df_init_previous_x {
            let proj_previous_x = Point::new(previous.x, init.y);
            if let Some(rect) = Rectangle::from_two_points(pending, proj_previous_x) {
                let ghost cb = canvas@;
                let ghost db = damage@;
                copy_rect(rect, canvas, image, width, height, damage);
                proof {
                    lemma_paint_kept(c0, cb, canvas@, image@, w, h, db, rect_area(rect), Paint::Copy);
                    lemma_copy_x_strip(init, previous, pending);
                    lemma_paint_on_strips(c0, cb, canvas@, image@, w, h, rect_area(rect), Paint::Copy, init, previous, pending);
                }
            }
        }
        if df_init_pending_y > df_init_previous_y {
            let proj_previous_y = Point::new(init.x, previous.y);
            if let Some(rect) = Rectangle::from_two_points(pending, proj_previous_y) {
                let ghost cb = canvas@;
                let ghost db = damage@;
                copy_rect(rect, canvas, image, width, height, damage);
                proof {
                    lemma_paint_kept(c0, cb, canvas@, image@, w, h, db, rect_area(rect), Paint::Copy);
                    lemma_copy_y_strip(init, previous, pending);
                    lemma_paint_on_strips(c0, cb, canvas@, image@, w, h, rect_area(rect), Paint::Copy, init, previous, pending);
                }
            }
        }
        assert(forall|x: int, y: int, k: int|
            on_surface(w, h, x, y, k) && !in_strips(init, previous, pending, x, y) ==> #[trigger] px(canvas@, w, x, y, k)
                == px(c0, w, x, y, k)) by {
            reveal(kept_off_strips);
        }
    } else {
        if let Some(rect) = Rectangle::from_two_points(init, previous) {
            let ghost cb = canvas@;
            let ghost db = damage@;
            dim_rect(rect, canvas, image, width, height, damage);
            proof {
                lemma_paint_kept(c0, cb, canvas@, image@, w, h, db, rect_area(rect), Paint::Dim);
            }
        }
        if let Some(rect) = Rectangle::from_two_points(init, pending) {
            let ghost cb = canvas@;
            let ghost db = damage@;
            copy_rect(rect, canvas, image, width, height, damage);
            proof {
                lemma_paint_kept(c0, cb, canvas@, image@, w, h, db, rect_area(rect), Paint::Copy);
            }
        }
    }
}

/// Dims the whole surface.
pub fn dim_all(canvas: &mut [u8], image: &[u8], width: u32, height: u32, damage: &mut Vec<Damage>)
    requires
        surface_buffers(old(canvas)@, image@, width as int, height as int),
    ensures
        final(canvas)@.len() == old(canvas)@.len(),
        all_dimmed(final(canvas)@, image@, width as int, height as int),
        extends(old(damage)@, final(damage)@, width as int, height as int),
        kept_outside(old(canvas)@, final(canvas)@, width as int, height as int, final(damage)@),
{
    let ghost c0 = canvas@;
    let ghost d0 = damage@;
    let area = Damage { x: 0, y: 0, width, height };
    paint_area(Paint::Dim, area, canvas, image, width, height, damage);
    proof {
        lemma_paint_kept(c0, c0, canvas@, image@, width as int, height as int, d0, area, Paint::Dim);
    }
}

/// Draws the selection of `anchor` and `corner` over a dimmed surface: the
/// box undimmed, the two crosshairs at full brightness.
pub fn draw_selection(anchor: Point, corner: Point, canvas: &mut [u8], image: &[u8], width: u32, height: u32, damage: &mut Vec<Damage>)
    requires
        surface_buffers(old(canvas)@, image@, width as int, height as int),
        point_fits(anchor, width as int, height as int),
        point_fits(corner, width as int, height as int),
    ensures
        final(canvas)@.len() == old(canvas)@.len(),
        box_shown(final(canvas)@, image@, width as int, height as int, anchor, corner),
        crosses_white(final(canvas)@, width as int, height as int, anchor, corner),
        extends(old(damage)@, final(damage)@, width as int, height as int),
        kept_outside(old(canvas)@, final(canvas)@, width as int, height as int, final(damage)@),
{
    let ghost w = width as int;
    let ghost h = height as int;
    let ghost c0 = canvas@;
    dim_all(canvas, image, width, height, damage);
    if let Some(rect) = Rectangle::from_two_points(anchor, corner) {
        let ghost cb = canvas@;
        let ghost db = damage@;
        copy_rect(rect, canvas, image, width, height, damage);
        proof {
            lemma_paint_kept(c0, cb, canvas@, image@, w, h, db, rect_area(rect), Paint::Copy);
        }
    }
    let ghost cb = canvas@;
    let ghost db = damage@;
    fill_crosshair(anchor, canvas, image, width, height, damage);
    proof {
        lemma_cross_kept(c0, cb, canvas@, image@, w, h, db, anchor, Paint::White);
    }
    let ghost cb = canvas@;
    let ghost db = damage@;
    fill_crosshair(corner, canvas, image, width, height, damage);
    proof {
        lemma_cross_kept(c0, cb, canvas@, image@, w, h, db, corner, Paint::White);
    }
}

/// Painting a crosshair and recording its column and row keeps every pixel
/// that the records do not cover.
proof fn lemma_cross_kept(
    c0: Seq<u8>,
    c1: Seq<u8>,
    c2: Seq<u8>,
    image: Seq<u8>,
    w: int,
    h: int,
    d1: Seq<Damage>,
    p: Point,
    paint: Paint,
)
    requires
        kept_outside(c0, c1, w, h, d1),
        paints_cross(c1, c2, image, w, h, p, paint),
        0 <= w <= u32::MAX,
        0 <= h <= u32::MAX,
    ensures
        kept_outside(c0, c2, w, h, d1.push(cross_column(p, h)).push(cross_row(p, w))),
{
    let d2 = d1.push(cross_column(p, h)).push(cross_row(p, w));
    assert forall|x: int, y: int, k: int|
        on_surface(w, h, x, y, k) && !damaged(d2, x, y) implies #[trigger] px(c2, w, x, y, k) == px(
            c0,
            w,
            x,
            y,
            k,
        ) by {
        assert(d2[d1.len() as int] == cross_column(p, h));
        assert(d2[d1.len() as int + 1] == cross_row(p, w));
        if damaged(d1, x, y) {
            let i = choose|i: int| 0 <= i < d1.len() && (#[trigger] d1[i]).covers(x, y);
            assert(d2[i] == d1[i]);
        }
    }
}

/// Moves the selection on the canvas from the box of `anchor` and `current`
/// to the box of `new_anchor` and `pending`: the old crosshairs are dimmed,
/// the box is updated strip by strip (first for the moved corner, then, when
/// the anchor moved too, for the anchor), and the new crosshairs are drawn.
pub fn draw_step(
    anchor: Point,
    current: Point,
    pending: Point,
    new_anchor: Option<Point>,
    canvas: &mut [u8],
    image: &[u8],
    width: u32,
    height: u32,
    damage: &mut Vec<Damage>,
)
    requires
        surface_buffers(old(canvas)@, image@, width as int, height as int),
        point_fits(anchor, width as int, height as int),
        point_fits(current, width as int, height as int),
        point_fits(pending, width as int, height as int),
        new_anchor matches Some(a) ==> point_fits(a, width as int, height as int),
    ensures
        final(canvas)@.len() == old(canvas)@.len(),
        box_shown(old(canvas)@, image@, width as int, height as int, anchor, current) ==> {
            let a = match new_anchor {
                Some(a) => a,
                None => anchor,
            };
            &&& box_shown(final(canvas)@, image@, width as int, height as int, a, pending)
            &&& crosses_white(final(canvas)@, width as int, height as int, a, pending)
        },
        extends(old(damage)@, final(damage)@, width as int, height as int),
        kept_outside(old(canvas)@, final(canvas)@, width as int, height as int, final(damage)@),
{
    let ghost w = width as int;
    let ghost h = height as int;
    let ghost c0 = canvas@;
    let ghost d0 = damage@;
    let ghost shown = box_shown(c0, image@, w, h, anchor, current);
    assert(kept_outside(c0, c0, w, h, d0));
    match new_anchor {
        Some(moved) => {
            let ghost cb = canvas@;
            let ghost db = damage@;
            dim_crosshair(anchor, canvas, image, width, height, damage);
            proof {
                lemma_cross_kept(c0, cb, canvas@, image@, w, h, db, anchor, Paint::Dim);
            }
            let ghost c1 = canvas@;
            let ghost d1 = damage@;
            dim_crosshair(current, canvas, image, width, height, damage);
            proof {
                lemma_cross_kept(c0, c1, canvas@, image@, w, h, d1, current, Paint::Dim);
            }
            let ghost c2 = canvas@;
            assert(shown ==> box_ready(c2, image@, w, h, anchor, current));
            update_selection_partial(anchor, current, pending, canvas, image, width, height, damage);
            let ghost c3 = canvas@;
            assert(shown ==> box_ready(c3, image@, w, h, pending, anchor)) by {
                if shown {
                    assert forall|x: int, y: int, k: int|
                        on_surface(w, h, x, y, k) && !on_cross(pending, x, y) implies {
                        let v = #[trigger] px(c3, w, x, y, k);
                        &&& (!in_box(pending, anchor, x, y) ==> v == dimmed(px(image@, w, x, y, k)))
                        &&& (in_box(pending, anchor, x, y) && !on_cross(anchor, x, y) ==> v == px(
                            image@,
                            w,
                            x,
                            y,
                            k,
                        ))
                    } by {
                        assert(px(c2, w, x, y, k) == px(c1, w, x, y, k) || on_cross(current, x, y));
                    }
                }
            }
            update_selection_partial(pending, anchor, moved, canvas, image, width, height, damage);
            let ghost cb = canvas@;
            let ghost db = damage@;
            fill_crosshair(moved, canvas, image, width, height, damage);
            proof {
                lemma_cross_kept(c0, cb, canvas@, image@, w, h, db, moved, Paint::White);
            }
            let ghost cb = canvas@;
            let ghost db = damage@;
            fill_crosshair(pending, canvas, image, width, height, damage);
            proof {
                lemma_cross_kept(c0, cb, canvas@, image@, w, h, db, pending, Paint::White);
            }
        },
        None => {
            let ghost cb = canvas@;
            let ghost db = damage@;
            dim_crosshair(current, canvas, image, width, height, damage);
            proof {
                lemma_cross_kept(c0, cb, canvas@, image@, w, h, db, current, Paint::Dim);
            }
            update_selection_partial(anchor, current, pending, canvas, image, width, height, damage);
            let ghost cb = canvas@;
            let ghost db = damage@;
            fill_crosshair(anchor, canvas, image, width, height, damage);
            proof {
                lemma_cross_kept(c0, cb, canvas@, image@, w, h, db, anchor, Paint::White);
            }
            let ghost cb = canvas@;
            let ghost db = damage@;
            fill_crosshair(pending, canvas, image, width, height, damage);
            proof {
                lemma_cross_kept(c0, cb, canvas@, image@, w, h, db, pending, Paint::White);
            }
        },
    }
}

/// A key that the selection reacts to.
#[derive(Clone, Copy, Debug, PartialEq, Eq, Structural)]
pub enum Key {
    /// Cancels the drag, or the whole selection when nothing is dragged.
    Escape,
    /// Held to move the whole selection instead of resizing it.
    Space,
    Other,
}

/// A drag in progress.
#[derive(Clone, Copy, Debug, PartialEq, Eq)]
pub struct SelectionData {
    /// Where the drag began.
    pub initial: Point,
    /// The pointer position last drawn.
    pub current: Point,
    /// The pointer position received since the last frame, if any.
    pub pending: Option<Point>,
    /// Whether the whole selection moves with the pointer.
    pub is_moving: bool,
    /// Whether the crosshairs of `initial` and `current` are on the canvas.
    pub drawn: bool,
}

#[derive(Clone, Copy, Debug, PartialEq, Eq)]
pub enum SelectionState {
    Waiting,
    BeginSelection(SelectionData),
    SelectionCompleted(Rectangle),
    Abort,
}

/// `p` moved onto a `w` by `h` surface.
pub open spec fn clamped(p: Point, w: u32, h: u32) -> Point {
    Point { x: min_u32(p.x, (w - 1) as u32), y: min_u32(p.y, (h - 1) as u32) }
}

/// `v` moved by `to - from`, kept within `0..limit`.
pub open spec fn shifted(v: u32, from: u32, to: u32, limit: u32) -> u32 {
    let n = v + to - from;
    if n < 0 {
        0
    } else if n >= limit {
        (limit - 1) as u32
    } else {
        n as u32
    }
}

/// The anchor moved by the pointer's move from `from` to `to`, kept on the
/// surface.
pub open spec fn shifted_point(anchor: Point, from: Point, to: Point, w: u32, h: u32) -> Point {
    Point { x: shifted(anchor.x, from.x, to.x, w), y: shifted(anchor.y, from.y, to.y, h) }
}

/// Anchor and corner of a drag once its pending position is taken in.
pub open spec fn settled(d: SelectionData, w: u32, h: u32) -> (Point, Point) {
    match d.pending {
        None => (d.initial, d.current),
        Some(q) => (if d.is_moving { shifted_point(d.initial, d.current, q, w, h) } else { d.initial }, q),
    }
}

/// The interactive selection over a captured image.
pub struct SelectionApp {
    image: Vec<u8>,
    width: u32,
    height: u32,
    state: SelectionState,
    repaint: bool,
}

/// What a selection is, as the contracts see it.
pub struct SelectionView {
    /// The captured image, four bytes per pixel.
    pub image: Seq<u8>,
    pub width: u32,
    pub height: u32,
    pub state: SelectionState,
    /// Whether the next frame must repaint the whole canvas.
    pub repaint: bool,
}

impl View for SelectionApp {
    type V = SelectionView;

    closed spec fn view(&self) -> SelectionView {
        SelectionView {
            image: self.image@,
            width: self.width,
            height: self.height,
            state: self.state,
            repaint: self.repaint,
        }
    }
}

impl SelectionView {
    pub open spec fn wf(&self) -> bool {
        &&& self.width >= 1
        &&& self.height >= 1
        &&& self.image.len() >= 4 * self.width * self.height
        &&& 4 * self.width * self.height <= usize::MAX
        &&& self.state matches SelectionState::BeginSelection(d) ==> {
            &&& point_fits(d.initial, self.width as int, self.height as int)
            &&& point_fits(d.current, self.width as int, self.height as int)
            &&& d.pending matches Some(q) ==> point_fits(q, self.width as int, self.height as int)
        }
    }

    /// What the canvas should show in this state.
    pub open spec fn displays(&self, canvas: Seq<u8>) -> bool {
        let (w, h) = (self.width as int, self.height as int);
        match self.state {
            SelectionState::Waiting => all_dimmed(canvas, self.image, w, h),
            SelectionState::BeginSelection(d) => {
                &&& box_shown(canvas, self.image, w, h, d.initial, d.current)
                &&& crosses_white(canvas, w, h, d.initial, d.current)
            },
            _ => true,
        }
    }

    /// The canvas is in the shape that the next frame builds on.
    pub open spec fn shows(&self, canvas: Seq<u8>) -> bool {
        let (w, h) = (self.width as int, self.height as int);
        &&& canvas.len() == 4 * w * h
        &&& (self.repaint || match self.state {
            SelectionState::Waiting => all_dimmed(canvas, self.image, w, h),
            SelectionState::BeginSelection(d) => {
                &&& box_shown(canvas, self.image, w, h, d.initial, d.current)
                &&& (d.drawn ==> crosses_white(canvas, w, h, d.initial, d.current))
            },
            _ => true,
        })
    }

    /// Whether the next frame has anything to draw.
    pub open spec fn needs_redraw(&self) -> bool {
        match self.state {
            SelectionState::Waiting => self.repaint,
            SelectionState::BeginSelection(d) => self.repaint || !d.drawn || (d.pending matches Some(q)
                && q != d.current),
            _ => false,
        }
    }

    /// The state after the canvas was declared stale.
    pub open spec fn invalidated(self) -> SelectionView {
        SelectionView { repaint: true, ..self }
    }

    /// The state after a frame.
    pub open spec fn after_redraw(self) -> SelectionView {
        match self.state {
            SelectionState::Waiting => SelectionView { repaint: false, ..self },
            SelectionState::BeginSelection(d) => if self.needs_redraw() {
                let (a, c) = settled(d, self.width, self.height);
                SelectionView {
                    state: SelectionState::BeginSelection(
                        SelectionData { initial: a, current: c, pending: None, is_moving: d.is_moving, drawn: true },
                    ),
                    repaint: false,
                    ..self
                }
            } else {
                SelectionView {
                    state: SelectionState::BeginSelection(SelectionData { pending: None, ..d }),
                    ..self
                }
            },
            _ => self,
        }
    }

    /// The state after the pointer moved to `pos`.
    pub open spec fn moved(self, pos: Point) -> SelectionView {
        match self.state {
            SelectionState::BeginSelection(d) => SelectionView {
                state: SelectionState::BeginSelection(
                    SelectionData { pending: Some(clamped(pos, self.width, self.height)), ..d },
                ),
                ..self
            },
            _ => self,
        }
    }

    /// The state after the primary button went down at `pos`.
    pub open spec fn pressed(self, pos: Point) -> SelectionView {
        match self.state {
            SelectionState::Waiting => {
                let p = clamped(pos, self.width, self.height);
                SelectionView {
                    state: SelectionState::BeginSelection(
                        SelectionData { initial: p, current: p, pending: None, is_moving: false, drawn: false },
                    ),
                    ..self
                }
            },
            _ => self,
        }
    }

    /// The state after the primary button went up: the box of the anchor
    /// and the last drawn position, if it has an area.
    pub open spec fn released(self) -> SelectionView {
        match self.state {
            SelectionState::BeginSelection(d) => {
                match Rectangle::spanned(d.initial, d.current) {
                    Some(r) => SelectionView { state: SelectionState::SelectionCompleted(r), ..self },
                    None => SelectionView { state: SelectionState::Waiting, repaint: true, ..self },
                }
            },
            _ => self,
        }
    }

    /// The state after `key` went down.
    pub open spec fn key_pressed(self, key: Key) -> SelectionView {
        match (key, self.state) {
            (Key::Escape, SelectionState::Waiting) => SelectionView { state: SelectionState::Abort, ..self },
            (Key::Escape, SelectionState::BeginSelection(_)) => SelectionView {
                state: SelectionState::Waiting,
                repaint: true,
                ..self
            },
            (Key::Space, SelectionState::BeginSelection(d)) => SelectionView {
                state: SelectionState::BeginSelection(SelectionData { is_moving: true, ..d }),
                ..self
            },
            _ => self,
        }
    }

    /// The state after `key` went up.
    pub open spec fn key_released(self, key: Key) -> SelectionView {
        match (key, self.state) {
            (Key::Space, SelectionState::BeginSelection(d)) => SelectionView {
                state: SelectionState::BeginSelection(SelectionData { is_moving: false, ..d }),
                ..self
            },
            _ => self,
        }
    }
}

fn clamp_point(p: Point, width: u32, height: u32) -> (r: Point)
    requires
        width >= 1,
        height >= 1,
    ensures
        r == clamped(p, width, height),
{
    Point { x: if p.x <= width - 1 { p.x } else { width - 1 }, y: if p.y <= height - 1 { p.y } else { height - 1 } }
}

fn shift_coord(v: u32, from: u32, to: u32, limit: u32) -> (r: u32)
    requires
        limit >= 1,
    ensures
        r == shifted(v, from, to, limit),
{
    let n: i64 = v as i64 + (to as i64 - from as i64);
    if n < 0 {
        0
    } else if n >= limit as i64 {
        limit - 1
    } else {
        n as u32
    }
}

impl SelectionApp {
    /// A selection over `image`, a `width` by `height` surface of four bytes
    /// per pixel; it waits for a press and repaints the whole canvas first.
    pub fn new(image: Vec<u8>, width: u32, height: u32) -> (r: Self)
        requires
            width >= 1,
            height >= 1,
            image@.len() >= 4 * width * height,
        ensures
            r@.wf(),
            r@.image == image@,
            r@.width == width,
            r@.height == height,
            r@.state == SelectionState::Waiting,
            r@.repaint,
    {
        let len = image.len();
        assert(4 * width * height <= len);
        SelectionApp { image, width, height, state: SelectionState::Waiting, repaint: true }
    }

    pub fn state(&self) -> (r: &SelectionState)
        ensures
            *r == self@.state,
    {
        &self.state
    }

    pub fn image(&self) -> (r: &Vec<u8>)
        ensures
            r@ == self@.image,
    {
        &self.image
    }

    /// Gives the captured image back.
    pub fn into_image(self) -> (r: Vec<u8>)
        ensures
            r@ == self@.image,
    {
        self.image
    }

    pub fn width(&self) -> (r: u32)
        ensures
            r == self@.width,
    {
        self.width
    }

    pub fn height(&self) -> (r: u32)
        ensures
            r == self@.height,
    {
        self.height
    }

    /// Done once the selection is completed or aborted.
    pub fn current_phase(&self) -> (r: StatePhase)
        ensures
            r == (match self@.state {
                SelectionState::Abort | SelectionState::SelectionCompleted(_) => StatePhase::Done,
                _ => StatePhase::Active,
            }),
    {
        match &self.state {
            SelectionState::Abort | SelectionState::SelectionCompleted(_) => StatePhase::Done,
            _ => StatePhase::Active,
        }
    }

    /// Returns selected region. If selection being in progress or aborted this function will
    /// return [`None`].
    pub fn selected_region(&self) -> (r: Option<Rectangle>)
        ensures
            r == (match self@.state {
                SelectionState::SelectionCompleted(rect) => Some(rect),
                _ => None,
            }),
    {
        match &self.state {
            SelectionState::SelectionCompleted(rect) => Some(*rect),
            _ => None,
        }
    }

    /// Whether the next frame has anything to draw.
    pub fn needs_frame(&self) -> (r: bool)
        ensures
            r == self@.needs_redraw(),
    {
        match &self.state {
            SelectionState::Waiting => self.repaint,
            SelectionState::BeginSelection(d) => self.repaint || !d.drawn || match d.pending {
                Some(q) => q != d.current,
                None => false,
            },
            _ => false,
        }
    }

    /// Makes the next frame repaint the whole canvas, as after the surface
    /// was configured anew.
    pub fn request_full_redraw(&mut self)
        requires
            old(self)@.wf(),
        ensures
            final(self)@ == old(self)@.invalidated(),
            final(self)@.wf(),
    {
        self.repaint = true;
    }

    /// Records the pointer position of a drag; it is drawn at the next frame,
    /// and only the last position before a frame is. A position off the
    /// surface is moved onto its last column or row.
    pub fn on_mouse_move(&mut self, pos: Point)
        requires
            old(self)@.wf(),
        ensures
            final(self)@ == old(self)@.moved(pos),
            final(self)@.wf(),
            forall|c: Seq<u8>| #[trigger] old(self)@.shows(c) ==> final(self)@.shows(c),
    {
        let p = clamp_point(pos, self.width, self.height);
        if let SelectionState::BeginSelection(d) = self.state {
            self.state = SelectionState::BeginSelection(SelectionData { pending: Some(p), ..d });
        }
    }

    /// Starts a drag at `pos` when none is in progress. A position off the
    /// surface is moved onto its last column or row.
    pub fn on_mouse_press(&mut self, pos: Point)
        requires
            old(self)@.wf(),
        ensures
            final(self)@ == old(self)@.pressed(pos),
            final(self)@.wf(),
            forall|c: Seq<u8>| #[trigger] old(self)@.shows(c) ==> final(self)@.shows(c),
    {
        let p = clamp_point(pos, self.width, self.height);
        if let SelectionState::Waiting = self.state {
            self.state = SelectionState::BeginSelection(
                SelectionData { initial: p, current: p, pending: None, is_moving: false, drawn: false },
            );
        }
    }

    /// Ends a drag: the box of the anchor and the last drawn pointer position
    /// becomes the selection, or, when it has no area, the drag is dropped
    /// and the selection waits again. A position received since the last
    /// frame is not taken in.
    pub fn on_mouse_release(&mut self)
        requires
            old(self)@.wf(),
        ensures
            final(self)@ == old(self)@.released(),
            final(self)@.wf(),
            forall|c: Seq<u8>| #[trigger] old(self)@.shows(c) ==> final(self)@.shows(c),
    {
        if let SelectionState::BeginSelection(d) = self.state {
            match Rectangle::from_two_points(d.initial, d.current) {
                Some(rect) => {
                    self.state = SelectionState::SelectionCompleted(rect);
                },
                None => {
                    self.state = SelectionState::Waiting;
                    self.repaint = true;
                },
            }
        }
    }

    /// Reacts to a key going down; returns whether the canvas must be redrawn
    /// at once.
    pub fn on_key_press(&mut self, key: Key) -> (redraw_now: bool)
        requires
            old(self)@.wf(),
        ensures
            final(self)@ == old(self)@.key_pressed(key),
            final(self)@.wf(),
            redraw_now == (key == Key::Escape && old(self)@.state is BeginSelection),
            forall|c: Seq<u8>| #[trigger] old(self)@.shows(c) ==> final(self)@.shows(c),
    {
        match key {
            Key::Escape => match self.state {
                SelectionState::Waiting => {
                    self.state = SelectionState::Abort;
                    false
                },
                SelectionState::BeginSelection(_) => {
                    self.state = SelectionState::Waiting;
                    self.repaint = true;
                    true
                },
                _ => false,
            },
            Key::Space => {
                if let SelectionState::BeginSelection(d) = self.state {
                    self.state = SelectionState::BeginSelection(SelectionData { is_moving: true, ..d });
                }
                false
            },
            Key::Other => false,
        }
    }

    /// Reacts to a key going up.
    pub fn on_key_release(&mut self, key: Key)
        requires
            old(self)@.wf(),
        ensures
            final(self)@ == old(self)@.key_released(key),
            final(self)@.wf(),
            forall|c: Seq<u8>| #[trigger] old(self)@.shows(c) ==> final(self)@.shows(c),
    {
        if let Key::Space = key {
            if let SelectionState::BeginSelection(d) = self.state {
                self.state = SelectionState::BeginSelection(SelectionData { is_moving: false, ..d });
            }
        }
    }

    fn settle(&self, d: SelectionData) -> (r: (Point, Point))
        requires
            self@.wf(),
            self.state == SelectionState::BeginSelection(d),
        ensures
            r == settled(d, self.width, self.height),
            point_fits(r.0, self.width as int, self.height as int),
            point_fits(r.1, self.width as int, self.height as int),
    {
        match d.pending {
            None => (d.initial, d.current),
            Some(q) => {
                let a = if d.is_moving {
                    Point {
                        x: shift_coord(d.initial.x, d.current.x, q.x, self.width),
                        y: shift_coord(d.initial.y, d.current.y, q.y, self.height),
                    }
                } else {
                    d.initial
                };
                (a, q)
            },
        }
    }

    /// Draws a frame on `canvas`, the presentation buffer, and returns the
    /// regions that changed. Waiting, it dims the whole image once; during a
    /// drag it moves the selection to the last pointer position, touching
    /// only what changed; with nothing new it draws nothing.
    pub fn on_redraw(&mut self, canvas: &mut [u8]) -> (damage: Vec<Damage>)
        requires
            old(self)@.wf(),
            old(canvas)@.len() == 4 * old(self)@.width * old(self)@.height,
        ensures
            final(self)@ == old(self)@.after_redraw(),
            final(self)@.wf(),
            kept_outside(
                old(canvas)@,
                final(canvas)@,
                old(self)@.width as int,
                old(self)@.height as int,
                damage@,
            ),
            old(self)@.shows(old(canvas)@) ==> final(self)@.shows(final(canvas)@) && final(self)@.displays(
                final(canvas)@,
            ),
            !old(self)@.needs_redraw() ==> damage@.len() == 0 && final(canvas)@ == old(canvas)@,
            forall|i: int| 0 <= i < damage@.len() ==> (#[trigger] damage@[i]).within(
                old(self)@.width as int,
                old(self)@.height as int,
            ),
    {
        let mut damage: Vec<Damage> = Vec::new();
        let width = self.width;
        let height = self.height;
        let needs = self.needs_frame();
        match self.state {
            SelectionState::Waiting => {
                if self.repaint {
                    dim_all(canvas, self.image.as_slice(), width, height, &mut damage);
                    self.repaint = false;
                }
            },
            SelectionState::BeginSelection(d) => {
                if needs {
                    let (a, c) = self.settle(d);
                    if self.repaint {
                        draw_selection(a, c, canvas, self.image.as_slice(), width, height, &mut damage);
                    } else {
                        let q = match d.pending {
                            Some(q) => q,
                            None => d.current,
                        };
                        let new_anchor = if d.is_moving { Some(a) } else { None };
                        draw_step(d.initial, d.current, q, new_anchor, canvas, self.image.as_slice(), width, height, &mut damage);
                    }
                    self.state = SelectionState::BeginSelection(
                        SelectionData { initial: a, current: c, pending: None, is_moving: d.is_moving, drawn: true },
                    );
                    self.repaint = false;
                } else {
                    self.state = SelectionState::BeginSelection(SelectionData { pending: None, ..d });
                }
            },
            _ => {},
        }
        damage
    }
}

/// A frame leaves nothing to draw: a second frame with no event in between
/// changes nothing, so that `on_redraw` returns no damage and keeps the
/// canvas.
pub proof fn lemma_redraw_idempotent(app: SelectionView)
    requires
        app.wf(),
    ensures
        !app.after_redraw().needs_redraw(),
        app.after_redraw().after_redraw() == app.after_redraw(),
{
}

/// Pointer moves between two frames coalesce: only the last position counts,
/// and after the frame it is the one drawn.
pub proof fn lemma_moves_coalesce(app: SelectionView, a: Point, b: Point, c: Point)
    requires
        app.wf(),
    ensures
        app.moved(a).moved(b).moved(c) == app.moved(c),
        app.state is BeginSelection ==> (app.moved(c).after_redraw().state matches
            SelectionState::BeginSelection(d) && d.current == clamped(c, app.width, app.height)
            && d.pending is None),
{
}

} // verus!
