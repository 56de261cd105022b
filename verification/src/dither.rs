//! The ordered dither that turns a rendered frame into hard black and white
//! per channel.

use vstd::prelude::*;

verus! {

/// What is added to each threshold of the pattern.
pub const CUTOFF: u8 = 3;

/// The side of the threshold pattern.
pub const PATTERN_SIDE: usize = 8;

/// The thresholds of the pattern, row by row, without the cutoff.
pub open spec fn pattern() -> Seq<u8> {
    seq![
        0u8, 32, 8, 40, 2, 34, 10, 42,
        48, 16, 56, 24, 50, 18, 58, 26,
        12, 44, 4, 36, 14, 46, 6, 38,
        60, 28, 52, 20, 62, 30, 54, 22,
        3, 35, 11, 43, 1, 33, 9, 41,
        51, 19, 59, 27, 49, 17, 57, 25,
        15, 47, 7, 39, 13, 45, 5, 37,
        63, 31, 55, 23, 61, 29, 53, 21,
    ]
}

/// The threshold of the pixel in the column `x` of the row `y`: the pattern
/// repeats over the image in both directions.
pub open spec fn threshold(x: int, y: int) -> int {
    pattern()[(y % 8) * 8 + x % 8] + CUTOFF
}

/// A channel value after the dither: full where it is above the threshold,
/// and zero where not.
pub open spec fn dithered(value: u8, threshold: int) -> u8 {
    if value > threshold {
        255
    } else {
        0
    }
}

/// The pixels `after` are the pixels `before` of an image `width` wide,
/// dithered down to the row `rows` and, in that row, to the column `cols`:
/// the three colour channels of each pixel dithered, all else as before.
pub open spec fn dithered_to(before: Seq<u8>, after: Seq<u8>, width: int, rows: int, cols: int) -> bool {
    &&& after.len() == before.len()
    &&& forall|i: int|
        0 <= i < after.len() ==> #[trigger] after[i] == if i % 4 != 3 && ((i / 4) / width < rows || ((i / 4)
            / width == rows && (i / 4) % width < cols)) {
            dithered(before[i], threshold((i / 4) % width, (i / 4) / width))
        } else {
            before[i]
        }
}

/// The threshold of the pixel in the column `x` of the row `y`.
pub fn threshold_at(x: usize, y: usize) -> (t: u8)
    ensures
        t == threshold(x as int, y as int),
{
    let table: [u8; 64] = [
        0, 32, 8, 40, 2, 34, 10, 42,
        48, 16, 56, 24, 50, 18, 58, 26,
        12, 44, 4, 36, 14, 46, 6, 38,
        60, 28, 52, 20, 62, 30, 54, 22,
        3, 35, 11, 43, 1, 33, 9, 41,
        51, 19, 59, 27, 49, 17, 57, 25,
        15, 47, 7, 39, 13, 45, 5, 37,
        63, 31, 55, 23, 61, 29, 53, 21,
    ];
    assert(table@ =~= pattern());
    table[(y % PATTERN_SIDE) * PATTERN_SIDE + x % PATTERN_SIDE] + CUTOFF
}

/// Dithers the image of `width` by `height` pixels whose channels `data`
/// holds, four to a pixel, row by row. The fourth channel of each pixel, its
/// opacity, stays.
pub fn apply(data: &mut Vec<u8>, width: usize, height: usize)
    requires
        old(data)@.len() == 4 * width * height,
    ensures
        dithered_to(old(data)@, final(data)@, width as int, height as int, 0),
{
    let ghost before = data@;
    let total: usize = data.len();
    let mut y: usize = 0;
    while y < height
        invariant
            0 <= y <= height,
            before.len() == 4 * width * height == total,
            dithered_to(before, data@, width as int, y as int, 0),
        decreases height - y,
    {
        let mut x: usize = 0;
        while x < width
            invariant
                0 <= x <= width,
                0 <= y < height,
                before.len() == 4 * width * height == total,
                dithered_to(before, data@, width as int, y as int, x as int),
            decreases width - x,
        {
            let t: u8 = threshold_at(x, y);
            proof {
                lemma_pixel_index(width as int, height as int, x as int, y as int);
                assert(0 <= y * width) by (nonlinear_arith)
                    requires
                        0 <= y,
                        0 <= width,
                ;
            }
            let i: usize = 4 * (y * width + x);
            let ghost entered = data@;
            let r: u8 = if data[i] > t { 255 } else { 0 };
            let g: u8 = if data[i + 1] > t { 255 } else { 0 };
            let b: u8 = if data[i + 2] > t { 255 } else { 0 };
            data[i] = r;
            data[i + 1] = g;
            data[i + 2] = b;
            proof {
                lemma_pixel_done(before, entered, data@, width as int, height as int, x as int, y as int);
            }
            x = x + 1;
        }
        proof {
            lemma_row_done(before, data@, width as int, y as int);
        }
        y = y + 1;
    }
}

/// The channels of the pixel in the column `x` of the row `y` lie in the
/// image, and their places lead back to the pixel.
pub proof fn lemma_pixel_index(width: int, height: int, x: int, y: int)
    requires
        0 <= x < width,
        0 <= y < height,
    ensures
        0 <= y * width + x < width * height,
        4 * (y * width + x) + 3 < 4 * width * height,
        (y * width + x) / width == y,
        (y * width + x) % width == x,
{
    assert(y * width + x < width * height) by (nonlinear_arith)
        requires
            0 <= x < width,
            0 <= y < height,
    ;
    assert(0 <= y * width) by (nonlinear_arith)
        requires
            0 <= y,
            0 < width,
    ;
    assert(4 * (width * height) == 4 * width * height) by (nonlinear_arith);
    vstd::arithmetic::div_mod::lemma_fundamental_div_mod_converse(y * width + x, width, y, x);
}

/// Dithering the three colour channels of the next pixel of a row extends
/// what is dithered by that pixel.
pub proof fn lemma_pixel_done(before: Seq<u8>, entered: Seq<u8>, after: Seq<u8>, width: int, height: int, x: int, y: int)
    requires
        0 <= x < width,
        0 <= y < height,
        before.len() == 4 * width * height,
        dithered_to(before, entered, width, y, x),
        after.len() == entered.len(),
        forall|i: int|
            0 <= i < after.len() ==> #[trigger] after[i] == if 4 * (y * width + x) <= i < 4 * (y * width + x) + 3 {
                dithered(entered[i], threshold(x, y))
            } else {
                entered[i]
            },
    ensures
        dithered_to(before, after, width, y, x + 1),
{
    lemma_pixel_index(width, height, x, y);
    let p = y * width + x;
    assert forall|i: int| 0 <= i < after.len() implies #[trigger] after[i] == if i % 4 != 3 && ((i / 4) / width < y
        || ((i / 4) / width == y && (i / 4) % width < x + 1)) {
        dithered(before[i], threshold((i / 4) % width, (i / 4) / width))
    } else {
        before[i]
    } by {
        let q = i / 4;
        assert(entered[i] == if i % 4 != 3 && (q / width < y || (q / width == y && q % width < x)) {
            dithered(before[i], threshold(q % width, q / width))
        } else {
            before[i]
        });
        if 4 * p <= i < 4 * p + 4 {
            assert(q == p);
        } else {
            assert(q != p);
            if q / width == y && q % width == x {
                vstd::arithmetic::div_mod::lemma_fundamental_div_mod(q, width);
                assert(width * y == y * width) by (nonlinear_arith);
            }
        }
    }
}

/// A row that is dithered to its end is a dithered row.
pub proof fn lemma_row_done(before: Seq<u8>, after: Seq<u8>, width: int, y: int)
    requires
        0 < width || after.len() == 0,
        dithered_to(before, after, width, y, width),
    ensures
        dithered_to(before, after, width, y + 1, 0),
{
    assert forall|i: int| 0 <= i < after.len() implies #[trigger] after[i] == if i % 4 != 3 && ((i / 4) / width < y + 1
        || ((i / 4) / width == y + 1 && (i / 4) % width < 0)) {
        dithered(before[i], threshold((i / 4) % width, (i / 4) / width))
    } else {
        before[i]
    } by {
        if 0 < width {
            vstd::arithmetic::div_mod::lemma_mod_bound(i / 4, width);
        }
    }
}

} // verus!
