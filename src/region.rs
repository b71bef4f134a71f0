use vstd::prelude::*;

use crate::draw::idx;
use crate::points::{Point, Rectangle};

verus! {

/// The region that covers a whole output of `logical_size`.
pub fn fullscreen_region(logical_size: Point) -> (r: Rectangle)
    ensures
        r == (Rectangle { start: Point { x: 0, y: 0 }, width: logical_size.x, height: logical_size.y }),
{
    Rectangle::new(Point::new(0, 0), logical_size.x, logical_size.y)
}

/// Whether `rect`, its right and bottom edge excluded, lies within an image
/// of `width` pixels per row held in `len` bytes.
pub open spec fn region_fits(len: int, width: int, rect: Rectangle) -> bool {
    &&& rect.start.x + rect.width <= width
    &&& 4 * width * (rect.start.y + rect.height) <= len
}

/// Whether `out` holds the pixels of `rect` of `image`, row by row, as red,
/// green and blue bytes.
pub open spec fn rgb_region(image: Seq<u8>, width: int, rect: Rectangle, out: Seq<u8>) -> bool {
    &&& out.len() == 3 * (rect.height * rect.width)
    &&& forall|i: int, j: int, c: int|
        0 <= i < rect.width && 0 <= j < rect.height && 0 <= c < 3 ==> #[trigger] out[3 * (j * rect.width
            + i) + c] == image[idx(width, rect.start.x + i, rect.start.y + j, 2 - c)]
}

proof fn lemma_lex(w: int, i1: int, j1: int, i2: int, j2: int)
    requires
        0 <= i1 < w,
        0 <= i2 < w,
        0 <= j1,
        0 <= j2,
        j1 < j2 || (j1 == j2 && i1 < i2),
    ensures
        j1 * w + i1 < j2 * w + i2,
{
    if j1 < j2 {
        assert(j1 * w + i1 < j2 * w) by (nonlinear_arith)
            requires
                j1 < j2,
                0 <= i1 < w,
        ;
        assert(0 <= i2);
    }
}

proof fn lemma_pixel_in_image(width: int, len: int, rect: Rectangle, i: int, j: int)
    requires
        region_fits(len, width, rect),
        0 <= i < rect.width,
        0 <= j < rect.height,
    ensures
        0 <= idx(width, rect.start.x + i, rect.start.y + j, 0),
        idx(width, rect.start.x + i, rect.start.y + j, 3) < len,
{
    let x = rect.start.x + i;
    let y = rect.start.y + j;
    let rows = rect.start.y + rect.height;
    assert(y * width + x < rows * width) by (nonlinear_arith)
        requires
            0 <= x < width,
            0 <= y < rows,
    ;
    assert(4 * width * rows == 4 * (rows * width)) by (nonlinear_arith);
    assert(0 <= y * width) by (nonlinear_arith)
        requires
            0 <= y,
            0 <= width,
    ;
}

/// The pixels of `rect`, right and bottom edge excluded, of an image of
/// `width` pixels per row and four bytes per pixel in blue, green, red
/// order, as red, green and blue bytes row by row.
pub fn crop_rgb(image: &[u8], width: u32, rect: Rectangle) -> (r: Vec<u8>)
    requires
        region_fits(image@.len() as int, width as int, rect),
    ensures
        rgb_region(image@, width as int, rect, r@),
{
    let ghost w = width as int;
    let ghost rw = rect.width as int;
    let len = image.len();
    let mut out: Vec<u8> = Vec::new();
    let mut j: u32 = 0;
    proof {
        assert(0 * rw == 0);
    }
    while j < rect.height
        invariant
            region_fits(len as int, w, rect),
            len == image@.len(),
            w == width,
            rw == rect.width,
            j <= rect.height,
            out@.len() == 3 * (j * rw),
            forall|i: int, jj: int, c: int|
                0 <= i < rw && 0 <= jj < j && 0 <= c < 3 ==> #[trigger] out@[3 * (jj * rw + i) + c]
                    == image@[idx(w, rect.start.x + i, rect.start.y + jj, 2 - c)],
        decreases rect.height - j,
    {
        let mut i: u32 = 0;
        while i < rect.width
            invariant
                region_fits(len as int, w, rect),
                len == image@.len(),
                w == width,
                rw == rect.width,
                j < rect.height,
                i <= rect.width,
                out@.len() == 3 * (j * rw + i),
                forall|ii: int, jj: int, c: int|
                    0 <= ii < rw && 0 <= jj <= j && 0 <= c < 3 && (jj < j || ii < i) ==> #[trigger] out@[3 * (
                    jj * rw + ii) + c] == image@[idx(w, rect.start.x + ii, rect.start.y + jj, 2 - c)],
            decreases rect.width - i,
        {
            proof {
                lemma_pixel_in_image(w, len as int, rect, i as int, j as int);
                let yy = rect.start.y + j;
                assert(yy <= yy * w) by (nonlinear_arith)
                    requires
                        w >= 1,
                        yy >= 0,
                ;
            }
            let x = (rect.start.x + i) as usize;
            let y = rect.start.y as usize + j as usize;
            proof {
                assert(y * w <= y * w + x) by (nonlinear_arith)
                    requires
                        0 <= x,
                ;
            }
            let base: usize = (y * width as usize + x) * 4;
            let ghost before = out@;
            out.push(image[base + 2]);
            out.push(image[base + 1]);
            out.push(image[base]);
            assert forall|ii: int, jj: int, c: int|
                0 <= ii < rw && 0 <= jj <= j && 0 <= c < 3 && (jj < j || ii <= i) implies #[trigger] out@[3 * (
                jj * rw + ii) + c] == image@[idx(w, rect.start.x + ii, rect.start.y + jj, 2 - c)] by {
                if jj < j || ii < i {
                    lemma_lex(rw, ii, jj, i as int, j as int);
                    assert(out@[3 * (jj * rw + ii) + c] == before[3 * (jj * rw + ii) + c]);
                }
            }
            i = i + 1;
        }
        proof {
            assert((j + 1) * rw == j * rw + rw) by (nonlinear_arith);
        }
        j = j + 1;
    }
    out
}

} // verus!
