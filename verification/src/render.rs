use crate::escape::{escape_time, escapes, lemma_escape_time_unique};
use crate::point::{deterministic, Point};
use vstd::prelude::*;

verus! {

/// The number of iterations after which a point is taken to belong to the set.
pub const LIMIT: usize = 255;

/// The shade of gray for an escape time: the sooner a point escapes, the brighter it is,
/// and a point that does not escape is black.
pub open spec fn shade(outcome: Option<usize>) -> int {
    match outcome {
        Some(count) => LIMIT - count,
        None => 0,
    }
}

/// Where the byte of `pixel`, a column and a row, stands in a buffer that holds a grid
/// of `bounds`, a width and a height, row after row.
pub open spec fn pixel_index(bounds: (usize, usize), pixel: (usize, usize)) -> int {
    pixel.1 * bounds.0 + pixel.0
}

/// `byte` is a shade that `pixel` can get: the shade of an escape time, within `LIMIT`
/// iterations, of a point that the mapping returned for the pixel. It is black exactly
/// when that point was not found to escape.
pub open spec fn shaded<P: Point>(
    bounds: (usize, usize),
    pixel: (usize, usize),
    upper_left: P,
    lower_right: P,
    byte: u8,
) -> bool {
    exists|point: P, outcome: Option<usize>|
        {
            &&& call_ensures(P::pixel_to_point, (bounds, pixel, &upper_left, &lower_right), point)
            &&& #[trigger] escapes(point, LIMIT, outcome)
            &&& byte == shade(outcome)
            &&& byte == 0 <==> outcome is None
        }
}

/// `pixels` is a picture of the rectangle: it holds one byte for each pixel of the grid,
/// and each byte is a shade that its pixel can get.
pub open spec fn pictured<P: Point>(
    bounds: (usize, usize),
    upper_left: P,
    lower_right: P,
    pixels: Seq<u8>,
) -> bool {
    &&& pixels.len() == bounds.0 * bounds.1
    &&& forall|pixel: (usize, usize)|
        pixel.0 < bounds.0 && pixel.1 < bounds.1 ==> shaded(
            bounds,
            pixel,
            upper_left,
            lower_right,
            pixels[#[trigger] pixel_index(bounds, pixel)],
        )
}

/// Every pixel of the grid has its byte in the buffer.
pub proof fn lemma_index_in_buffer(bounds: (usize, usize), pixel: (usize, usize))
    requires
        pixel.0 < bounds.0,
        pixel.1 < bounds.1,
    ensures
        0 <= pixel.1 * bounds.0 <= pixel_index(bounds, pixel) < bounds.0 * bounds.1,
{
    let w = bounds.0 as int;
    let h = bounds.1 as int;
    let r = pixel.1 as int;
    assert(0 <= r * w && (r + 1) * w <= h * w && (r + 1) * w == r * w + w && h * w == w * h)
        by (nonlinear_arith)
        requires
            0 <= r,
            r + 1 <= h,
            0 < w,
    ;
}

/// The bytes stand in the order of the rows, and within a row in that of the columns:
/// no two pixels of the grid share a byte.
pub proof fn lemma_index_order(
    bounds: (usize, usize),
    first: (usize, usize),
    second: (usize, usize),
)
    requires
        first.0 < bounds.0,
        first.1 < second.1 || (first.1 == second.1 && first.0 < second.0),
    ensures
        pixel_index(bounds, first) < pixel_index(bounds, second),
{
    let w = bounds.0 as int;
    let r1 = first.1 as int;
    let r2 = second.1 as int;
    if r1 < r2 {
        assert((r1 + 1) * w <= r2 * w && (r1 + 1) * w == r1 * w + w) by (nonlinear_arith)
            requires
                r1 + 1 <= r2,
                0 < w,
        ;
    }
}

/// Every byte of the buffer belongs to a pixel of the grid: to the one whose column is
/// the remainder, and whose row is the quotient, of the byte's place by the width.
pub proof fn lemma_index_of_pixel(bounds: (usize, usize), index: int)
    requires
        0 <= index < bounds.0 * bounds.1,
    ensures
        0 <= index % (bounds.0 as int) < bounds.0,
        0 <= index / (bounds.0 as int) < bounds.1,
        pixel_index(
            bounds,
            ((index % (bounds.0 as int)) as usize, (index / (bounds.0 as int)) as usize),
        ) == index,
{
    let w = bounds.0 as int;
    let h = bounds.1 as int;
    assert(w > 0) by (nonlinear_arith)
        requires
            0 <= index < w * h,
            0 <= w,
    ;
    vstd::arithmetic::div_mod::lemma_fundamental_div_mod(index, w);
    vstd::arithmetic::div_mod::lemma_mod_bound(index, w);
    let r = index / w;
    assert(0 <= r < h) by (nonlinear_arith)
        requires
            0 <= index < w * h,
            index == w * r + index % w,
            0 <= index % w < w,
            0 < w,
    ;
    assert(w * r == r * w) by (nonlinear_arith);
}

/// A byte is black exactly when its point did not escape within `LIMIT` iterations; a
/// point that did escape has a shade from 1 to 255.
pub proof fn lemma_black_iff_inside<P: Point>(c: P, outcome: Option<usize>)
    requires
        escapes(c, LIMIT, outcome),
    ensures
        0 <= shade(outcome) <= 255,
        shade(outcome) == 0 <==> outcome is None,
{
}

/// With deterministic arithmetic a pixel can get one shade only.
pub proof fn lemma_shade_unique<P: Point>(
    bounds: (usize, usize),
    pixel: (usize, usize),
    upper_left: P,
    lower_right: P,
    first: u8,
    second: u8,
)
    requires
        deterministic::<P>(),
        shaded(bounds, pixel, upper_left, lower_right, first),
        shaded(bounds, pixel, upper_left, lower_right, second),
    ensures
        first == second,
{
    let (point_a, outcome_a) = choose|point: P, outcome: Option<usize>|
        {
            &&& call_ensures(P::pixel_to_point, (bounds, pixel, &upper_left, &lower_right), point)
            &&& #[trigger] escapes(point, LIMIT, outcome)
            &&& first == shade(outcome)
            &&& first == 0 <==> outcome is None
        };
    let (point_b, outcome_b) = choose|point: P, outcome: Option<usize>|
        {
            &&& call_ensures(P::pixel_to_point, (bounds, pixel, &upper_left, &lower_right), point)
            &&& #[trigger] escapes(point, LIMIT, outcome)
            &&& second == shade(outcome)
            &&& second == 0 <==> outcome is None
        };
    lemma_escape_time_unique(point_a, LIMIT, outcome_a, outcome_b);
}

/// Rendering the same rectangle twice gives the same picture, byte for byte, as long as
/// the arithmetic underneath returns the same values for the same arguments.
pub proof fn lemma_picture_unique<P: Point>(
    bounds: (usize, usize),
    upper_left: P,
    lower_right: P,
    first: Seq<u8>,
    second: Seq<u8>,
)
    requires
        deterministic::<P>(),
        pictured(bounds, upper_left, lower_right, first),
        pictured(bounds, upper_left, lower_right, second),
    ensures
        first == second,
{
    assert forall|index: int| 0 <= index < first.len() implies first[index] == second[index] by {
        lemma_index_of_pixel(bounds, index);
        let pixel = ((index % (bounds.0 as int)) as usize, (index / (bounds.0 as int)) as usize);
        assert(pixel_index(bounds, pixel) == index);
        lemma_shade_unique(bounds, pixel, upper_left, lower_right, first[index], second[index]);
    }
    assert(first =~= second);
}

/// The place of a pixel's byte, computed.
fn pixel_offset(bounds: (usize, usize), pixel: (usize, usize)) -> (offset: usize)
    requires
        pixel.0 < bounds.0,
        pixel.1 < bounds.1,
        bounds.0 * bounds.1 <= usize::MAX,
    ensures
        offset == pixel_index(bounds, pixel),
        offset < bounds.0 * bounds.1,
{
    proof {
        lemma_index_in_buffer(bounds, pixel);
    }
    pixel.1 * bounds.0 + pixel.0
}

/// The shade of gray for an escape time within `LIMIT` iterations.
pub fn intensity(outcome: Option<usize>) -> (byte: u8)
    requires
        outcome matches Some(count) ==> count < LIMIT,
    ensures
        byte == shade(outcome),
{
    match outcome {
        Some(count) => (LIMIT - count) as u8,
        None => 0,
    }
}

/// Whether `pixels` has one byte for each pixel of a grid of `bounds`, and no more: the
/// test to make before the buffer is handed to `render`, which takes no other.
pub fn buffer_fits(pixels: &[u8], bounds: (usize, usize)) -> (fits: bool)
    ensures
        fits == (pixels@.len() == bounds.0 * bounds.1),
{
    assert(pixels@.len() == pixels.len());
    match bounds.0.checked_mul(bounds.1) {
        Some(size) => pixels.len() == size,
        None => false,
    }
}

/// Fills `pixels` with a picture of the rectangle between `upper_left` and `lower_right`:
/// the byte at `row * width + column` gets the shade of that pixel's escape time.
///
/// Only pixels inside the grid are ever mapped, so a grid without pixels leaves the
/// (empty) buffer alone and calls nothing.
pub fn render<P: Point>(pixels: &mut [u8], bounds: (usize, usize), upper_left: P, lower_right: P)
    requires
        old(pixels)@.len() == bounds.0 * bounds.1,
    ensures
        pictured(bounds, upper_left, lower_right, final(pixels)@),
{
    assert(pixels@.len() == pixels.len());
    let mut row: usize = 0;
    while row < bounds.1
        invariant
            row <= bounds.1,
            pixels@.len() == bounds.0 * bounds.1 <= usize::MAX,
            forall|pixel: (usize, usize)|
                pixel.0 < bounds.0 && pixel.1 < row ==> shaded(
                    bounds,
                    pixel,
                    upper_left,
                    lower_right,
                    pixels@[#[trigger] pixel_index(bounds, pixel)],
                ),
        decreases bounds.1 - row,
    {
        let mut column: usize = 0;
        while column < bounds.0
            invariant
                row < bounds.1,
                column <= bounds.0,
                pixels@.len() == bounds.0 * bounds.1 <= usize::MAX,
                forall|pixel: (usize, usize)|
                    pixel.0 < bounds.0 && (pixel.1 < row || (pixel.1 == row && pixel.0 < column))
                        ==> shaded(
                        bounds,
                        pixel,
                        upper_left,
                        lower_right,
                        pixels@[#[trigger] pixel_index(bounds, pixel)],
                    ),
            decreases bounds.0 - column,
        {
            let point = P::pixel_to_point(bounds, (column, row), &upper_left, &lower_right);
            let outcome = escape_time(point, LIMIT);
            let offset = pixel_offset(bounds, (column, row));
            let ghost before = pixels@;
            pixels[offset] = intensity(outcome);
            proof {
                assert(shaded(
                    bounds,
                    (column, row),
                    upper_left,
                    lower_right,
                    pixels@[offset as int],
                ));
                assert forall|pixel: (usize, usize)|
                    pixel.0 < bounds.0 && (pixel.1 < row || (pixel.1 == row && pixel.0 < column))
                    implies pixels@[#[trigger] pixel_index(bounds, pixel)] == before[pixel_index(
                    bounds,
                    pixel,
                )] by {
                    lemma_index_order(bounds, pixel, (column, row));
                }
            }
            column += 1;
        }
        row += 1;
    }
}

} // verus!
