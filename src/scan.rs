use vstd::prelude::*;

use crate::color::Color;
use crate::count::differs_only_at;
use crate::geometry::{covers, max_int, min_int, Point, Rect};
use crate::image::Image;

verus! {

/// Every pixel of column `x` from row `a` to row `b`, both included, has the
/// colour `c`.
pub open spec fn target_between(img: Image, c: Color, x: int, a: int, b: int) -> bool {
    forall|j: int| min_int(a, b) <= j <= max_int(a, b) ==> #[trigger] img.pixel(x, j) == c
}

/// Some seed in the same column reaches `(qx, qy)` through pixels of the
/// colour `c`.
pub open spec fn seeded(img: Image, c: Color, seeds: Seq<Point>, qx: int, qy: int) -> bool {
    exists|k: int|
        0 <= k < seeds.len() && (#[trigger] seeds[k]).x == qx && target_between(
            img,
            c,
            qx,
            seeds[k].y as int,
            qy,
        )
}

/// The scan going down column `wx` from row `wy` reaches `(qx, qy)`.
pub open spec fn walk_reaches(
    img: Image,
    c: Color,
    walking: bool,
    wx: int,
    wy: int,
    qx: int,
    qy: int,
) -> bool {
    walking && qx == wx && qy >= wy && target_between(img, c, qx, wy, qy)
}

/// Pixel `(qx, qy)` is no pixel of the colour `c` in the region, or the
/// fill will still reach it.
pub open spec fn pending(
    img: Image,
    c: Color,
    region: Rect,
    seeds: Seq<Point>,
    walking: bool,
    wx: int,
    wy: int,
    qx: int,
    qy: int,
) -> bool {
    !(covers(region, qx, qy) && img.pixel(qx, qy) == c) || seeded(img, c, seeds, qx, qy)
        || walk_reaches(img, c, walking, wx, wy, qx, qy)
}

/// The fill changed pixel `(x, y)`.
pub open spec fn painted(original: Image, img: Image, x: int, y: int) -> bool {
    img.pixel(x, y) != original.pixel(x, y)
}

/// Each of the four neighbours of `(x, y)` is pending.
pub open spec fn neighbors_pending(
    img: Image,
    c: Color,
    region: Rect,
    seeds: Seq<Point>,
    walking: bool,
    wx: int,
    wy: int,
    x: int,
    y: int,
) -> bool {
    &&& pending(img, c, region, seeds, walking, wx, wy, x - 1, y)
    &&& pending(img, c, region, seeds, walking, wx, wy, x + 1, y)
    &&& pending(img, c, region, seeds, walking, wx, wy, x, y - 1)
    &&& pending(img, c, region, seeds, walking, wx, wy, x, y + 1)
}

/// Every neighbour of a changed pixel is pending.
pub open spec fn frontier_ok(
    original: Image,
    img: Image,
    c: Color,
    region: Rect,
    seeds: Seq<Point>,
    walking: bool,
    wx: int,
    wy: int,
) -> bool {
    forall|x: int, y: int|
        original.in_bounds(x, y) && #[trigger] painted(original, img, x, y) ==> neighbors_pending(
            img,
            c,
            region,
            seeds,
            walking,
            wx,
            wy,
            x,
            y,
        )
}

/// No changed pixel has a neighbour in the region of the colour `c`.
pub open spec fn fill_closed(original: Image, img: Image, region: Rect, c: Color) -> bool {
    forall|x: int, y: int|
        original.in_bounds(x, y) && #[trigger] painted(original, img, x, y) ==> {
            &&& !(covers(region, x - 1, y) && img.pixel(x - 1, y) == c)
            &&& !(covers(region, x + 1, y) && img.pixel(x + 1, y) == c)
            &&& !(covers(region, x, y - 1) && img.pixel(x, y - 1) == c)
            &&& !(covers(region, x, y + 1) && img.pixel(x, y + 1) == c)
        }
}

/// A further seed keeps every pending pixel pending.
pub proof fn lemma_pending_push(
    img: Image,
    c: Color,
    region: Rect,
    seeds: Seq<Point>,
    p: Point,
    walking: bool,
    wx: int,
    wy: int,
    qx: int,
    qy: int,
)
    requires
        pending(img, c, region, seeds, walking, wx, wy, qx, qy),
    ensures
        pending(img, c, region, seeds.push(p), walking, wx, wy, qx, qy),
{
    if seeded(img, c, seeds, qx, qy) {
        let k = choose|k: int|
            0 <= k < seeds.len() && (#[trigger] seeds[k]).x == qx && target_between(
                img,
                c,
                qx,
                seeds[k].y as int,
                qy,
            );
        assert(seeds.push(p)[k] == seeds[k]);
    }
}

/// A further seed keeps the frontier pending.
pub proof fn lemma_frontier_push(
    original: Image,
    img: Image,
    c: Color,
    region: Rect,
    seeds: Seq<Point>,
    p: Point,
    walking: bool,
    wx: int,
    wy: int,
)
    requires
        frontier_ok(original, img, c, region, seeds, walking, wx, wy),
    ensures
        frontier_ok(original, img, c, region, seeds.push(p), walking, wx, wy),
{
    assert forall|x: int, y: int|
        original.in_bounds(x, y) && #[trigger] painted(original, img, x, y) implies neighbors_pending(
        img,
        c,
        region,
        seeds.push(p),
        walking,
        wx,
        wy,
        x,
        y,
    ) by {
        lemma_pending_push(img, c, region, seeds, p, walking, wx, wy, x - 1, y);
        lemma_pending_push(img, c, region, seeds, p, walking, wx, wy, x + 1, y);
        lemma_pending_push(img, c, region, seeds, p, walking, wx, wy, x, y - 1);
        lemma_pending_push(img, c, region, seeds, p, walking, wx, wy, x, y + 1);
    }
}

/// Seeds kept as a prefix keep every pending pixel pending.
pub proof fn lemma_pending_grow(
    img: Image,
    c: Color,
    region: Rect,
    seeds: Seq<Point>,
    more: Seq<Point>,
    walking: bool,
    wx: int,
    wy: int,
    qx: int,
    qy: int,
)
    requires
        seeds.len() <= more.len(),
        more.subrange(0, seeds.len() as int) == seeds,
        pending(img, c, region, seeds, walking, wx, wy, qx, qy),
    ensures
        pending(img, c, region, more, walking, wx, wy, qx, qy),
{
    if seeded(img, c, seeds, qx, qy) {
        let k = choose|k: int|
            0 <= k < seeds.len() && (#[trigger] seeds[k]).x == qx && target_between(
                img,
                c,
                qx,
                seeds[k].y as int,
                qy,
            );
        assert(more.subrange(0, seeds.len() as int)[k] == more[k]);
        assert(more[k] == seeds[k]);
    }
}

/// Seeds kept as a prefix keep the neighbours of a pixel pending.
pub proof fn lemma_neighbors_grow(
    img: Image,
    c: Color,
    region: Rect,
    seeds: Seq<Point>,
    more: Seq<Point>,
    walking: bool,
    wx: int,
    wy: int,
    x: int,
    y: int,
)
    requires
        seeds.len() <= more.len(),
        more.subrange(0, seeds.len() as int) == seeds,
        neighbors_pending(img, c, region, seeds, walking, wx, wy, x, y),
    ensures
        neighbors_pending(img, c, region, more, walking, wx, wy, x, y),
{
    lemma_pending_grow(img, c, region, seeds, more, walking, wx, wy, x - 1, y);
    lemma_pending_grow(img, c, region, seeds, more, walking, wx, wy, x + 1, y);
    lemma_pending_grow(img, c, region, seeds, more, walking, wx, wy, x, y - 1);
    lemma_pending_grow(img, c, region, seeds, more, walking, wx, wy, x, y + 1);
}

/// A seed in a column reaches the next pixel down when that pixel has the
/// colour too.
pub proof fn lemma_seeded_extend(img: Image, c: Color, seeds: Seq<Point>, qx: int, qy: int)
    requires
        seeded(img, c, seeds, qx, qy - 1),
        img.pixel(qx, qy) == c,
    ensures
        seeded(img, c, seeds, qx, qy),
{
    let k = choose|k: int|
        0 <= k < seeds.len() && (#[trigger] seeds[k]).x == qx && target_between(
            img,
            c,
            qx,
            seeds[k].y as int,
            qy - 1,
        );
    assert(target_between(img, c, qx, seeds[k].y as int, qy));
}

/// Recolouring a pixel of another column leaves a seed's reach as it was.
pub proof fn lemma_seeded_other_column(
    before: Image,
    after: Image,
    c: Color,
    seeds: Seq<Point>,
    x: int,
    y: int,
    qx: int,
    qy: int,
)
    requires
        differs_only_at(before, after, x, y),
        before.size.width >= 0,
        0 <= qx < before.size.width,
        qx != x,
        seeded(before, c, seeds, qx, qy),
        0 <= qy < before.size.height,
        forall|k: int| 0 <= k < seeds.len() ==> 0 <= (#[trigger] seeds[k]).y < before.size.height,
    ensures
        seeded(after, c, seeds, qx, qy),
{
    let k = choose|k: int|
        0 <= k < seeds.len() && (#[trigger] seeds[k]).x == qx && target_between(
            before,
            c,
            qx,
            seeds[k].y as int,
            qy,
        );
    assert forall|j: int|
        min_int(seeds[k].y as int, qy) <= j <= max_int(
            seeds[k].y as int,
            qy,
        ) implies #[trigger] after.pixel(qx, j) == c by {
        assert(before.pixel(qx, j) == c);
    }
}

/// A fresh seed reaches itself.
pub proof fn lemma_seeded_fresh(img: Image, c: Color, seeds: Seq<Point>, p: Point)
    requires
        img.pixel(p.x as int, p.y as int) == c,
    ensures
        seeded(img, c, seeds.push(p), p.x as int, p.y as int),
{
    let more = seeds.push(p);
    assert(more[seeds.len() as int] == p);
    assert(target_between(img, c, p.x as int, p.y as int, p.y as int));
}

/// Leaving the walk at its end, where the column leaves the region or the
/// colour, drops nothing that was pending.
pub proof fn lemma_walk_end(
    original: Image,
    img: Image,
    c: Color,
    region: Rect,
    seeds: Seq<Point>,
    x: int,
    y: int,
)
    requires
        frontier_ok(original, img, c, region, seeds, true, x, y),
        y >= crate::geometry::bottom(region) || img.pixel(x, y) != c,
    ensures
        frontier_ok(original, img, c, region, seeds, false, 0, 0),
{
    assert forall|px: int, py: int|
        original.in_bounds(px, py) && #[trigger] painted(original, img, px, py) implies neighbors_pending(
        img,
        c,
        region,
        seeds,
        false,
        0,
        0,
        px,
        py,
    ) by {
        assert(neighbors_pending(img, c, region, seeds, true, x, y, px, py));
        assert forall|qx: int, qy: int|
            walk_reaches(img, c, true, x, y, qx, qy) && covers(region, qx, qy) implies false by {
            assert(img.pixel(qx, y) == c);
        }
    }
}

/// Popping the last seed and starting the walk down its column at `top_row`
/// keeps everything pending: what the seed reached, the walk reaches.
pub proof fn lemma_walk_start(
    original: Image,
    img: Image,
    c: Color,
    region: Rect,
    seeds: Seq<Point>,
    top_row: int,
)
    requires
        seeds.len() > 0,
        frontier_ok(original, img, c, region, seeds, false, 0, 0),
        ({
            let s = seeds[seeds.len() - 1];
            &&& crate::geometry::top(region) <= top_row <= s.y + 1
            &&& top_row == crate::geometry::top(region) || img.pixel(s.x as int, top_row - 1) != c
            &&& img.pixel(s.x as int, s.y as int) == c ==> forall|j: int|
                top_row <= j <= s.y ==> #[trigger] img.pixel(s.x as int, j) == c
        }),
    ensures
        frontier_ok(
            original,
            img,
            c,
            region,
            seeds.subrange(0, seeds.len() - 1),
            true,
            seeds[seeds.len() - 1].x as int,
            top_row,
        ),
{
    let s = seeds[seeds.len() - 1];
    let rest = seeds.subrange(0, seeds.len() - 1);
    let (sx, sy) = (s.x as int, s.y as int);
    assert forall|qx: int, qy: int|
        pending(img, c, region, seeds, false, 0, 0, qx, qy) implies pending(
        img,
        c,
        region,
        rest,
        true,
        sx,
        top_row,
        qx,
        qy,
    ) by {
        if covers(region, qx, qy) && img.pixel(qx, qy) == c {
            let k = choose|k: int|
                0 <= k < seeds.len() && (#[trigger] seeds[k]).x == qx && target_between(
                    img,
                    c,
                    qx,
                    seeds[k].y as int,
                    qy,
                );
            if k < seeds.len() - 1 {
                assert(rest[k] == seeds[k]);
            } else {
                assert(img.pixel(sx, sy) == c);
                if qy < top_row {
                    assert(img.pixel(sx, top_row - 1) == c);
                }
                assert forall|j: int| min_int(top_row, qy) <= j <= max_int(top_row, qy) implies #[trigger] img.pixel(
                    sx,
                    j,
                ) == c by {
                    if j > sy {
                        assert(min_int(sy, qy) <= j <= max_int(sy, qy));
                    }
                }
            }
        }
    }
    assert forall|px: int, py: int|
        original.in_bounds(px, py) && #[trigger] painted(original, img, px, py) implies neighbors_pending(
        img,
        c,
        region,
        rest,
        true,
        sx,
        top_row,
        px,
        py,
    ) by {
        assert(neighbors_pending(img, c, region, seeds, false, 0, 0, px, py));
    }
}

/// Recolouring pixel `(x, y)` of the walk moves the walk one row down and
/// keeps everything pending; the new pixel's neighbours above and below
/// are pending too.
pub proof fn lemma_walk_paint(
    original: Image,
    before: Image,
    after: Image,
    c: Color,
    fill: Color,
    region: Rect,
    seeds: Seq<Point>,
    x: int,
    y: int,
    top_row: int,
)
    requires
        c != fill,
        differs_only_at(before, after, x, y),
        before.in_bounds(x, y),
        original.size == before.size,
        covers(region, x, y),
        original.pixel(x, y) == c,
        before.pixel(x, y) == c,
        after.pixel(x, y) == fill,
        frontier_ok(original, before, c, region, seeds, true, x, y),
        crate::geometry::top(region) <= top_row <= y,
        top_row == crate::geometry::top(region) || before.pixel(x, top_row - 1) != c,
        forall|j: int| top_row <= j < y ==> #[trigger] before.pixel(x, j) != c,
        forall|i: int, j: int| covers(region, i, j) ==> before.in_bounds(i, j),
        forall|k: int|
            0 <= k < seeds.len() ==> covers(region, (#[trigger] seeds[k]).x as int, seeds[k].y as int),
    ensures
        forall|px: int, py: int|
            original.in_bounds(px, py) && #[trigger] painted(original, after, px, py) && (px != x
                || py != y) ==> neighbors_pending(after, c, region, seeds, true, x, y + 1, px, py),
        pending(after, c, region, seeds, true, x, y + 1, x, y - 1),
        pending(after, c, region, seeds, true, x, y + 1, x, y + 1),
        painted(original, after, x, y),
{
    assert forall|qx: int, qy: int|
        pending(before, c, region, seeds, true, x, y, qx, qy) implies pending(
        after,
        c,
        region,
        seeds,
        true,
        x,
        y + 1,
        qx,
        qy,
    ) by {
        if covers(region, qx, qy) && after.pixel(qx, qy) == c {
            assert(qx != x || qy != y);
            assert(after.pixel(qx, qy) == before.pixel(qx, qy));
            if seeded(before, c, seeds, qx, qy) {
                let k = choose|k: int|
                    0 <= k < seeds.len() && (#[trigger] seeds[k]).x == qx && target_between(
                        before,
                        c,
                        qx,
                        seeds[k].y as int,
                        qy,
                    );
                let ky = seeds[k].y as int;
                if qx == x && min_int(ky, qy) <= y <= max_int(ky, qy) {
                    if qy < y {
                        if qy >= top_row {
                            assert(before.pixel(x, qy) != c);
                        } else {
                            assert(before.pixel(x, top_row - 1) == c);
                        }
                    }
                    assert forall|j: int| min_int(y + 1, qy) <= j <= max_int(y + 1, qy) implies #[trigger] after.pixel(
                        x,
                        j,
                    ) == c by {
                        assert(before.pixel(x, j) == c);
                        assert(covers(region, x, j));
                    }
                    assert(walk_reaches(after, c, true, x, y + 1, qx, qy));
                } else {
                    assert forall|j: int| min_int(ky, qy) <= j <= max_int(ky, qy) implies #[trigger] after.pixel(
                        qx,
                        j,
                    ) == c by {
                        assert(before.pixel(qx, j) == c);
                        if qx == x {
                            assert(j != y);
                        }
                        assert(covers(region, qx, ky));
                        assert(covers(region, qx, j));
                    }
                    assert(seeded(after, c, seeds, qx, qy));
                }
            } else {
                assert(walk_reaches(before, c, true, x, y, qx, qy));
                assert forall|j: int| min_int(y + 1, qy) <= j <= max_int(y + 1, qy) implies #[trigger] after.pixel(
                    x,
                    j,
                ) == c by {
                    assert(before.pixel(x, j) == c);
                    assert(covers(region, x, j));
                }
            }
        }
    }
    assert forall|px: int, py: int|
        original.in_bounds(px, py) && #[trigger] painted(original, after, px, py) && (px != x
            || py != y) implies neighbors_pending(after, c, region, seeds, true, x, y + 1, px, py) by {
        assert(after.pixel(px, py) == before.pixel(px, py));
        assert(painted(original, before, px, py));
        assert(neighbors_pending(before, c, region, seeds, true, x, y, px, py));
    }
    if covers(region, x, y - 1) && after.pixel(x, y - 1) == c {
        assert(after.pixel(x, y - 1) == before.pixel(x, y - 1));
        if y - 1 < top_row {
            assert(before.pixel(x, top_row - 1) != c);
        }
    }
    if covers(region, x, y + 1) && after.pixel(x, y + 1) == c {
        assert(target_between(after, c, x, y + 1, y + 1));
    }
}

/// Seeds kept as a prefix keep every seeded pixel seeded.
pub proof fn lemma_seeded_grow(
    img: Image,
    c: Color,
    seeds: Seq<Point>,
    more: Seq<Point>,
    qx: int,
    qy: int,
)
    requires
        seeds.len() <= more.len(),
        more.subrange(0, seeds.len() as int) == seeds,
        seeded(img, c, seeds, qx, qy),
    ensures
        seeded(img, c, more, qx, qy),
{
    let k = choose|k: int|
        0 <= k < seeds.len() && (#[trigger] seeds[k]).x == qx && target_between(
            img,
            c,
            qx,
            seeds[k].y as int,
            qy,
        );
    assert(more.subrange(0, seeds.len() as int)[k] == more[k]);
}

/// With no seeds left and no walk under way, nothing is pending: the fill
/// is closed.
pub proof fn lemma_frontier_closed(original: Image, img: Image, c: Color, region: Rect, seeds: Seq<Point>)
    requires
        seeds.len() == 0,
        frontier_ok(original, img, c, region, seeds, false, 0, 0),
    ensures
        fill_closed(original, img, region, c),
{
    assert forall|x: int, y: int|
        original.in_bounds(x, y) && #[trigger] painted(original, img, x, y) implies {
            &&& !(covers(region, x - 1, y) && img.pixel(x - 1, y) == c)
            &&& !(covers(region, x + 1, y) && img.pixel(x + 1, y) == c)
            &&& !(covers(region, x, y - 1) && img.pixel(x, y - 1) == c)
            &&& !(covers(region, x, y + 1) && img.pixel(x, y + 1) == c)
        } by {
        assert(neighbors_pending(img, c, region, seeds, false, 0, 0, x, y));
    }
}

/// Pixel `(x, y)` lies in the box spanned by the corners, both included.
pub open spec fn in_box(min_x: int, max_x: int, min_y: int, max_y: int, x: int, y: int) -> bool {
    min_x <= x <= max_x && min_y <= y <= max_y
}

/// Every changed pixel lies in the box, or has neighbours to its left and
/// right in the region that each still have the colour `c` or lie in the
/// box.
pub open spec fn accounted(
    original: Image,
    img: Image,
    c: Color,
    region: Rect,
    min_x: int,
    max_x: int,
    min_y: int,
    max_y: int,
) -> bool {
    forall|x: int, y: int|
        original.in_bounds(x, y) && #[trigger] painted(original, img, x, y) ==> in_box(
            min_x,
            max_x,
            min_y,
            max_y,
            x,
            y,
        ) || (covers(region, x - 1, y) && covers(region, x + 1, y) && (img.pixel(x - 1, y) == c
            || in_box(min_x, max_x, min_y, max_y, x - 1, y)) && (img.pixel(x + 1, y) == c
            || in_box(min_x, max_x, min_y, max_y, x + 1, y)))
}

/// A closed fill whose changed pixels are accounted for has them all in
/// the box.
pub proof fn lemma_accounted_closed(
    original: Image,
    img: Image,
    c: Color,
    region: Rect,
    min_x: int,
    max_x: int,
    min_y: int,
    max_y: int,
)
    requires
        fill_closed(original, img, region, c),
        accounted(original, img, c, region, min_x, max_x, min_y, max_y),
    ensures
        forall|x: int, y: int|
            original.in_bounds(x, y) && #[trigger] painted(original, img, x, y) ==> in_box(
                min_x,
                max_x,
                min_y,
                max_y,
                x,
                y,
            ),
{
}

} // verus!
