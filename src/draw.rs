use vstd::prelude::*;

use crate::points::{Point, Rectangle};

verus! {

/// Byte offset of channel `k` of pixel (`x`, `y`) in a row-major buffer of
/// four bytes per pixel and `w` pixels per row.
pub open spec fn idx(w: int, x: int, y: int, k: int) -> int {
    4 * (y * w + x) + k
}

/// Channel `k` of pixel (`x`, `y`) in `s`.
pub open spec fn px(s: Seq<u8>, w: int, x: int, y: int, k: int) -> u8 {
    s[idx(w, x, y, k)]
}

/// Whether (`x`, `y`, `k`) names a channel of a pixel of a `w` by `h` surface.
pub open spec fn on_surface(w: int, h: int, x: int, y: int, k: int) -> bool {
    0 <= x < w && 0 <= y < h && 0 <= k < 4
}

/// The dimmed value of a channel: half its brightness.
pub open spec fn dimmed(b: u8) -> u8 {
    b / 2
}

/// Whether `canvas` and `image` are buffers of a `w` by `h` surface.
pub open spec fn surface_buffers(canvas: Seq<u8>, image: Seq<u8>, w: int, h: int) -> bool {
    canvas.len() == 4 * w * h && image.len() >= 4 * w * h
}

/// What a drawing operation writes into a pixel.
#[derive(Clone, Copy, Debug, PartialEq, Eq, Structural)]
pub enum Paint {
    /// The captured pixel, dimmed.
    Dim,
    /// The captured pixel as it is.
    Copy,
    /// Full brightness on every channel.
    White,
}

impl Paint {
    /// The value that this paint gives channel `k` of pixel (`x`, `y`).
    pub open spec fn value(self, image: Seq<u8>, w: int, x: int, y: int, k: int) -> u8 {
        match self {
            Paint::Dim => dimmed(px(image, w, x, y, k)),
            Paint::Copy => px(image, w, x, y, k),
            Paint::White => 255u8,
        }
    }
}

/// A region of the surface declared as changed: the pixels from (`x`, `y`)
/// up to, not including, (`x + width`, `y + height`).
#[derive(Clone, Copy, Debug, PartialEq, Eq, Structural)]
pub struct Damage {
    pub x: u32,
    pub y: u32,
    pub width: u32,
    pub height: u32,
}

impl Damage {
    pub open spec fn covers(self, x: int, y: int) -> bool {
        self.x <= x < self.x + self.width && self.y <= y < self.y + self.height
    }

    pub open spec fn within(self, w: int, h: int) -> bool {
        self.x + self.width <= w && self.y + self.height <= h
    }
}

/// Whether some region of `d` covers pixel (`x`, `y`).
pub open spec fn damaged(d: Seq<Damage>, x: int, y: int) -> bool {
    exists|i: int| 0 <= i < d.len() && (#[trigger] d[i]).covers(x, y)
}

/// The pixels that drawing `r` touches: both corners are included.
pub open spec fn rect_area(r: Rectangle) -> Damage {
    Damage {
        x: r.start.x,
        y: r.start.y,
        width: (r.width + 1) as u32,
        height: (r.height + 1) as u32,
    }
}

/// Whether drawing `r` stays on a `w` by `h` surface.
pub open spec fn rect_fits(r: Rectangle, w: int, h: int) -> bool {
    r.start.x + r.width < w && r.start.y + r.height < h
}

/// Whether `p` lies on the surface.
pub open spec fn point_fits(p: Point, w: int, h: int) -> bool {
    p.x < w && p.y < h
}

/// Whether pixel (`x`, `y`) lies on the crosshair through `p`.
pub open spec fn on_cross(p: Point, x: int, y: int) -> bool {
    x == p.x || y == p.y
}

proof fn lemma_idx_bounds(w: int, h: int, x: int, y: int, k: int)
    requires
        on_surface(w, h, x, y, k),
    ensures
        0 <= y * w + x < w * h,
        0 <= idx(w, x, y, k) < 4 * w * h,
{
    assert(y * w + x < w * h) by (nonlinear_arith)
        requires
            0 <= x < w,
            0 <= y < h,
    ;
    assert(0 <= y * w) by (nonlinear_arith)
        requires
            0 <= y,
            0 <= w,
    ;
    assert(4 * w * h == 4 * (w * h)) by (nonlinear_arith);
}

proof fn lemma_idx_injective(w: int, x1: int, y1: int, k1: int, x2: int, y2: int, k2: int)
    requires
        0 <= x1 < w,
        0 <= x2 < w,
        0 <= y1,
        0 <= y2,
        0 <= k1 < 4,
        0 <= k2 < 4,
        idx(w, x1, y1, k1) == idx(w, x2, y2, k2),
    ensures
        x1 == x2,
        y1 == y2,
        k1 == k2,
{
    let lin1 = y1 * w + x1;
    let lin2 = y2 * w + x2;
    assert(lin1 == lin2 && k1 == k2);
    if y1 < y2 {
        assert(y1 * w + x1 < y2 * w) by (nonlinear_arith)
            requires
                y1 < y2,
                0 <= x1 < w,
        ;
        assert(false);
    } else if y2 < y1 {
        assert(y2 * w + x2 < y1 * w) by (nonlinear_arith)
            requires
                y2 < y1,
                0 <= x2 < w,
        ;
        assert(false);
    }
}

/// Paints one pixel.
fn paint_pixel(paint: Paint, x: u32, y: u32, canvas: &mut [u8], image: &[u8], width: u32, height: u32)
    requires
        surface_buffers(old(canvas)@, image@, width as int, height as int),
        x < width,
        y < height,
    ensures
        final(canvas)@.len() == old(canvas)@.len(),
        forall|i: int, j: int, k: int|
            on_surface(width as int, height as int, i, j, k) ==> #[trigger] px(final(canvas)@, width as int, i, j, k)
                == if i == x && j == y {
                paint.value(image@, width as int, i, j, k)
            } else {
                px(old(canvas)@, width as int, i, j, k)
            },
{
    let ghost w = width as int;
    let ghost h = height as int;
    let ghost c0 = canvas@;
    let n: usize = canvas.len();
    proof {
        lemma_idx_bounds(w, h, x as int, y as int, 3);
        assert(y * w <= y * w + x);
        assert(w * h <= 4 * w * h) by (nonlinear_arith)
            requires
                0 <= w,
                0 <= h,
        ;
    }
    let base: usize = (y as usize * width as usize + x as usize) * 4;
    assert(base as int == idx(w, x as int, y as int, 0));
    let mut k: usize = 0;
    while k < 4
        invariant
            0 <= k <= 4,
            base as int == idx(w, x as int, y as int, 0),
            base + 3 < canvas@.len(),
            canvas@.len() == c0.len(),
            surface_buffers(c0, image@, w, h),
            x < w,
            y < h,
            forall|i: int|
                0 <= i < canvas@.len() ==> #[trigger] canvas@[i] == if base <= i < base + k {
                    paint.value(image@, w, x as int, y as int, i - base)
                } else {
                    c0[i]
                },
        decreases 4 - k,
    {
        let v: u8 = match paint {
            Paint::Dim => dim_u8(image[base + k]),
            Paint::Copy => image[base + k],
            Paint::White => 255,
        };
        canvas[base + k] = v;
        k = k + 1;
    }
    assert forall|i: int, j: int, kk: int| on_surface(w, h, i, j, kk) implies #[trigger] px(canvas@, w, i, j, kk)
        == if i == x && j == y {
        paint.value(image@, w, i, j, kk)
    } else {
        px(c0, w, i, j, kk)
    } by {
        lemma_idx_bounds(w, h, i, j, kk);
        let n = idx(w, i, j, kk);
        if base <= n < base + 4 {
            lemma_idx_injective(w, i, j, kk, x as int, y as int, n - base);
        }
    }
}

/// Whether `after` is `before` with `paint` applied to the pixels of `area`
/// and every other pixel kept.
pub open spec fn paints(before: Seq<u8>, after: Seq<u8>, image: Seq<u8>, w: int, h: int, area: Damage, paint: Paint) -> bool {
    &&& after.len() == before.len()
    &&& forall|x: int, y: int, k: int|
        on_surface(w, h, x, y, k) ==> #[trigger] px(after, w, x, y, k) == if area.covers(x, y) {
            paint.value(image, w, x, y, k)
        } else {
            px(before, w, x, y, k)
        }
}

/// Paints every pixel of `area` and records `area` as damaged.
pub fn paint_area(paint: Paint, area: Damage, canvas: &mut [u8], image: &[u8], width: u32, height: u32, damage: &mut Vec<Damage>)
    requires
        surface_buffers(old(canvas)@, image@, width as int, height as int),
        area.within(width as int, height as int),
    ensures
        paints(old(canvas)@, final(canvas)@, image@, width as int, height as int, area, paint),
        final(damage)@ == old(damage)@.push(area),
{
    let ghost w = width as int;
    let ghost h = height as int;
    let ghost c0 = canvas@;
    let y_end: u32 = area.y + area.height;
    let x_end: u32 = area.x + area.width;
    let mut y: u32 = area.y;
    while y < y_end
        invariant
            area.y <= y <= y_end,
            y_end == area.y + area.height,
            x_end == area.x + area.width,
            area.within(w, h),
            w == width,
            h == height,
            surface_buffers(canvas@, image@, w, h),
            canvas@.len() == c0.len(),
            forall|i: int, j: int, k: int|
                on_surface(w, h, i, j, k) ==> #[trigger] px(canvas@, w, i, j, k) == if area.x <= i < x_end
                    && area.y <= j < y {
                    paint.value(image@, w, i, j, k)
                } else {
                    px(c0, w, i, j, k)
                },
        decreases y_end - y,
    {
        let mut x: u32 = area.x;
        while x < x_end
            invariant
                area.x <= x <= x_end,
                area.y <= y < y_end,
                y_end == area.y + area.height,
                x_end == area.x + area.width,
                area.within(w, h),
                w == width,
                h == height,
                surface_buffers(canvas@, image@, w, h),
                canvas@.len() == c0.len(),
                forall|i: int, j: int, k: int|
                    on_surface(w, h, i, j, k) ==> #[trigger] px(canvas@, w, i, j, k) == if area.x <= i
                        < x_end && (area.y <= j < y || (j == y && i < x)) {
                        paint.value(image@, w, i, j, k)
                    } else {
                        px(c0, w, i, j, k)
                    },
            decreases x_end - x,
        {
            paint_pixel(paint, x, y, canvas, image, width, height);
            x = x + 1;
        }
        y = y + 1;
    }
    damage.push(area);
}

/// Draws `rect` with `paint`, both corners included.
fn paint_rect(paint: Paint, rect: Rectangle, canvas: &mut [u8], image: &[u8], width: u32, height: u32, damage: &mut Vec<Damage>)
    requires
        surface_buffers(old(canvas)@, image@, width as int, height as int),
        rect_fits(rect, width as int, height as int),
    ensures
        paints(old(canvas)@, final(canvas)@, image@, width as int, height as int, rect_area(rect), paint),
        final(damage)@ == old(damage)@.push(rect_area(rect)),
{
    let area = Damage { x: rect.start.x, y: rect.start.y, width: rect.width + 1, height: rect.height + 1 };
    paint_area(paint, area, canvas, image, width, height, damage);
}

/// Shows the captured image undimmed inside `rect`, both corners included.
pub fn copy_rect(rect: Rectangle, canvas: &mut [u8], image: &[u8], width: u32, height: u32, damage: &mut Vec<Damage>)
    requires
        surface_buffers(old(canvas)@, image@, width as int, height as int),
        rect_fits(rect, width as int, height as int),
    ensures
        paints(old(canvas)@, final(canvas)@, image@, width as int, height as int, rect_area(rect), Paint::Copy),
        final(damage)@ == old(damage)@.push(rect_area(rect)),
{
    paint_rect(Paint::Copy, rect, canvas, image, width, height, damage);
}

/// Shows the captured image dimmed inside `rect`, both corners included.
pub fn dim_rect(rect: Rectangle, canvas: &mut [u8], image: &[u8], width: u32, height: u32, damage: &mut Vec<Damage>)
    requires
        surface_buffers(old(canvas)@, image@, width as int, height as int),
        rect_fits(rect, width as int, height as int),
    ensures
        paints(old(canvas)@, final(canvas)@, image@, width as int, height as int, rect_area(rect), Paint::Dim),
        final(damage)@ == old(damage)@.push(rect_area(rect)),
{
    paint_rect(Paint::Dim, rect, canvas, image, width, height, damage);
}

/// The column of the crosshair through `p`.
pub open spec fn cross_column(p: Point, h: int) -> Damage {
    Damage { x: p.x, y: 0, width: 1, height: h as u32 }
}

/// The row of the crosshair through `p`.
pub open spec fn cross_row(p: Point, w: int) -> Damage {
    Damage { x: 0, y: p.y, width: w as u32, height: 1 }
}

/// Whether `after` is `before` with the crosshair through `p` painted with
/// `paint` and every other pixel kept.
pub open spec fn paints_cross(before: Seq<u8>, after: Seq<u8>, image: Seq<u8>, w: int, h: int, p: Point, paint: Paint) -> bool {
    &&& after.len() == before.len()
    &&& forall|x: int, y: int, k: int|
        on_surface(w, h, x, y, k) ==> #[trigger] px(after, w, x, y, k) == if on_cross(p, x, y) {
            paint.value(image, w, x, y, k)
        } else {
            px(before, w, x, y, k)
        }
}

fn paint_crosshair(paint: Paint, pos: Point, canvas: &mut [u8], image: &[u8], width: u32, height: u32, damage: &mut Vec<Damage>)
    requires
        surface_buffers(old(canvas)@, image@, width as int, height as int),
        point_fits(pos, width as int, height as int),
    ensures
        paints_cross(old(canvas)@, final(canvas)@, image@, width as int, height as int, pos, paint),
        final(damage)@ == old(damage)@.push(cross_column(pos, height as int)).push(cross_row(pos, width as int)),
{
    let column = Damage { x: pos.x, y: 0, width: 1, height: height };
    let row = Damage { x: 0, y: pos.y, width: width, height: 1 };
    paint_area(paint, column, canvas, image, width, height, damage);
    paint_area(paint, row, canvas, image, width, height, damage);
}

/// Restores the dimmed image on the crosshair through `pos`.
pub fn dim_crosshair(pos: Point, canvas: &mut [u8], image: &[u8], width: u32, height: u32, damage: &mut Vec<Damage>)
    requires
        surface_buffers(old(canvas)@, image@, width as int, height as int),
        point_fits(pos, width as int, height as int),
    ensures
        paints_cross(old(canvas)@, final(canvas)@, image@, width as int, height as int, pos, Paint::Dim),
        final(damage)@ == old(damage)@.push(cross_column(pos, height as int)).push(cross_row(pos, width as int)),
{
    paint_crosshair(Paint::Dim, pos, canvas, image, width, height, damage);
}

/// Draws the crosshair through `pos` at full brightness.
pub fn fill_crosshair(pos: Point, canvas: &mut [u8], image: &[u8], width: u32, height: u32, damage: &mut Vec<Damage>)
    requires
        surface_buffers(old(canvas)@, image@, width as int, height as int),
        point_fits(pos, width as int, height as int),
    ensures
        paints_cross(old(canvas)@, final(canvas)@, image@, width as int, height as int, pos, Paint::White),
        final(damage)@ == old(damage)@.push(cross_column(pos, height as int)).push(cross_row(pos, width as int)),
{
    paint_crosshair(Paint::White, pos, canvas, image, width, height, damage);
}

/// Dims one channel value.
pub fn dim_u8(src: u8) -> (r: u8)
    ensures
        r == dimmed(src),
{
    ((src as u32) * 128 / 256) as u8
}

} // verus!
