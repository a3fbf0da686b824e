use vstd::prelude::*;

use crate::color::Color;
use crate::image::Image;

verus! {

/// How many of the first `n` pixels of row `y` have the colour `c`.
pub open spec fn row_count(img: Image, c: Color, y: int, n: int) -> nat
    decreases n,
{
    if n <= 0 {
        0
    } else {
        row_count(img, c, y, n - 1) + if img.pixel(n - 1, y) == c {
            1nat
        } else {
            0nat
        }
    }
}

/// How many pixels of the first `m` rows have the colour `c`.
pub open spec fn rows_count(img: Image, c: Color, m: int) -> nat
    decreases m,
{
    if m <= 0 {
        0
    } else {
        rows_count(img, c, m - 1) + row_count(img, c, m - 1, img.size.width as int)
    }
}

/// How many pixels of the image have the colour `c`.
pub open spec fn color_count(img: Image, c: Color) -> nat {
    rows_count(img, c, img.size.height as int)
}

/// `after` differs from `before` in pixel `(px, py)` alone.
pub open spec fn differs_only_at(before: Image, after: Image, px: int, py: int) -> bool {
    &&& after.size == before.size
    &&& forall|i: int, j: int|
        before.in_bounds(i, j) && (i != px || j != py) ==> #[trigger] after.pixel(i, j)
            == before.pixel(i, j)
}

proof fn lemma_row_count(before: Image, after: Image, c: Color, px: int, py: int, y: int, n: int)
    requires
        differs_only_at(before, after, px, py),
        0 <= y < before.size.height,
        n <= before.size.width,
        before.pixel(px, py) == c,
        after.pixel(px, py) != c,
    ensures
        row_count(after, c, y, n) + (if y == py && 0 <= px < n {
            1nat
        } else {
            0nat
        }) == row_count(before, c, y, n),
    decreases n,
{
    if n > 0 {
        lemma_row_count(before, after, c, px, py, y, n - 1);
        if n - 1 != px || y != py {
            assert(after.pixel(n - 1, y) == before.pixel(n - 1, y));
        }
    }
}

proof fn lemma_rows_count(before: Image, after: Image, c: Color, px: int, py: int, m: int)
    requires
        differs_only_at(before, after, px, py),
        m <= before.size.height,
        0 <= px < before.size.width,
        before.pixel(px, py) == c,
        after.pixel(px, py) != c,
    ensures
        rows_count(after, c, m) + (if 0 <= py < m {
            1nat
        } else {
            0nat
        }) == rows_count(before, c, m),
    decreases m,
{
    if m > 0 {
        lemma_rows_count(before, after, c, px, py, m - 1);
        lemma_row_count(before, after, c, px, py, m - 1, before.size.width as int);
    }
}

/// Recolouring one pixel of the colour `c` to another colour lowers the
/// count of `c` by one.
pub proof fn lemma_count_drops(before: Image, after: Image, c: Color, px: int, py: int)
    requires
        differs_only_at(before, after, px, py),
        before.in_bounds(px, py),
        before.pixel(px, py) == c,
        after.pixel(px, py) != c,
    ensures
        color_count(after, c) + 1 == color_count(before, c),
{
    lemma_rows_count(before, after, c, px, py, before.size.height as int);
}

} // verus!
