use vstd::prelude::*;

use crate::color::Color;
use crate::color_replace::recolored_within;
use crate::geometry::{covers, in_i32, max_int, min_int, Point, Rect};
use crate::image::Image;
use crate::count::differs_only_at;
use crate::scan::{fill_closed, painted};

verus! {

/// Two pixels side by side or one above the other.
pub open spec fn adjacent(a: Point, b: Point) -> bool {
    (a.x == b.x && (a.y - b.y == 1 || b.y - a.y == 1)) || (a.y == b.y && (a.x - b.x == 1 || b.x
        - a.x == 1))
}

/// `path` runs through pixels of the colour `c` inside `region`, each next
/// to the one before.
pub open spec fn is_path(img: Image, region: Rect, c: Color, path: Seq<Point>) -> bool {
    &&& path.len() > 0
    &&& forall|i: int|
        0 <= i < path.len() ==> covers(region, (#[trigger] path[i]).x as int, path[i].y as int)
            && img.pixel(path[i].x as int, path[i].y as int) == c
    &&& forall|i: int| 0 <= i < path.len() - 1 ==> adjacent(#[trigger] path[i], path[i + 1])
}

/// A path of pixels of the colour `c` inside `region` joins `start` to
/// `(x, y)`.
pub open spec fn linked(img: Image, region: Rect, c: Color, start: Point, x: int, y: int) -> bool {
    exists|path: Seq<Point>|
        #[trigger] is_path(img, region, c, path) && path[0] == start && path.last().x == x
            && path.last().y == y
}

/// The start reaches itself.
pub proof fn lemma_link_start(img: Image, region: Rect, c: Color, start: Point)
    requires
        covers(region, start.x as int, start.y as int),
        img.pixel(start.x as int, start.y as int) == c,
    ensures
        linked(img, region, c, start, start.x as int, start.y as int),
{
    let path = seq![start];
    assert(is_path(img, region, c, path));
}

/// A linked pixel links its neighbours of the colour inside the region.
pub proof fn lemma_link_step(
    img: Image,
    region: Rect,
    c: Color,
    start: Point,
    x: int,
    y: int,
    nx: int,
    ny: int,
)
    requires
        linked(img, region, c, start, x, y),
        covers(region, nx, ny),
        img.pixel(nx, ny) == c,
        (x == nx && (y - ny == 1 || ny - y == 1)) || (y == ny && (x - nx == 1 || nx - x == 1)),
        in_i32(nx) && in_i32(ny),
    ensures
        linked(img, region, c, start, nx, ny),
{
    let path = choose|path: Seq<Point>|
        #[trigger] is_path(img, region, c, path) && path[0] == start && path.last().x == x
            && path.last().y == y;
    let q = Point { x: nx as i32, y: ny as i32 };
    let longer = path.push(q);
    assert forall|i: int| 0 <= i < longer.len() implies covers(
        region,
        (#[trigger] longer[i]).x as int,
        longer[i].y as int,
    ) && img.pixel(longer[i].x as int, longer[i].y as int) == c by {
        if i < path.len() {
            assert(longer[i] == path[i]);
        }
    }
    assert forall|i: int| 0 <= i < longer.len() - 1 implies adjacent(
        #[trigger] longer[i],
        longer[i + 1],
    ) by {
        assert(longer[i] == path[i]);
        if i < path.len() - 1 {
            assert(longer[i + 1] == path[i + 1]);
        }
    }
    assert(is_path(img, region, c, longer));
    assert(longer[0] == start);
}

/// Every pixel of column `x` from row `lo` to row `hi` lies in the region
/// and has the colour `c`.
pub open spec fn column_run(img: Image, region: Rect, c: Color, x: int, lo: int, hi: int) -> bool {
    &&& forall|j: int| lo <= j <= hi ==> #[trigger] img.pixel(x, j) == c
    &&& forall|j: int| lo <= j <= hi ==> #[trigger] covers(region, x, j)
    &&& in_i32(lo) && in_i32(hi)
}

/// A linked pixel links the pixels below it in its column that a run of the
/// colour inside the region joins to it.
pub proof fn lemma_link_down(
    img: Image,
    region: Rect,
    c: Color,
    start: Point,
    x: int,
    from: int,
    to: int,
)
    requires
        from <= to,
        linked(img, region, c, start, x, from),
        column_run(img, region, c, x, from, to),
        in_i32(x),
    ensures
        linked(img, region, c, start, x, to),
    decreases to - from,
{
    if from < to {
        assert(img.pixel(x, from + 1) == c);
        assert(covers(region, x, from + 1));
        lemma_link_step(img, region, c, start, x, from, x, from + 1);
        lemma_link_down(img, region, c, start, x, from + 1, to);
    }
}

/// A linked pixel links the pixels above it in its column that a run of the
/// colour inside the region joins to it.
pub proof fn lemma_link_up(
    img: Image,
    region: Rect,
    c: Color,
    start: Point,
    x: int,
    from: int,
    to: int,
)
    requires
        to <= from,
        linked(img, region, c, start, x, from),
        column_run(img, region, c, x, to, from),
        in_i32(x),
    ensures
        linked(img, region, c, start, x, to),
    decreases from - to,
{
    if to < from {
        assert(img.pixel(x, from - 1) == c);
        assert(covers(region, x, from - 1));
        lemma_link_step(img, region, c, start, x, from, x, from - 1);
        lemma_link_up(img, region, c, start, x, from - 1, to);
    }
}

/// A closed fill that recoloured the first pixel of a path recoloured the
/// whole path.
pub proof fn lemma_closed_reaches(
    before: Image,
    after: Image,
    region: Rect,
    target: Color,
    fill: Color,
    path: Seq<Point>,
)
    requires
        target != fill,
        recolored_within(before, after, region, target, fill),
        fill_closed(before, after, region, target),
        forall|x: int, y: int| covers(region, x, y) ==> before.in_bounds(x, y),
        is_path(before, region, target, path),
        after.pixel(path[0].x as int, path[0].y as int) == fill,
    ensures
        forall|i: int|
            0 <= i < path.len() ==> after.pixel((#[trigger] path[i]).x as int, path[i].y as int)
                == fill,
    decreases path.len(),
{
    if path.len() > 1 {
        let shorter = path.subrange(0, path.len() - 1);
        assert forall|i: int| 0 <= i < shorter.len() implies covers(
            region,
            (#[trigger] shorter[i]).x as int,
            shorter[i].y as int,
        ) && before.pixel(shorter[i].x as int, shorter[i].y as int) == target by {
            assert(shorter[i] == path[i]);
        }
        assert forall|i: int| 0 <= i < shorter.len() - 1 implies adjacent(
            #[trigger] shorter[i],
            shorter[i + 1],
        ) by {
            assert(shorter[i] == path[i]);
            assert(shorter[i + 1] == path[i + 1]);
            assert(adjacent(path[i], path[i + 1]));
        }
        assert(shorter[0] == path[0]);
        lemma_closed_reaches(before, after, region, target, fill, shorter);
        let n = path.len() - 1;
        let (p, q) = (path[n - 1], path[n]);
        assert(shorter[n - 1] == p);
        assert(adjacent(path[n - 1], path[n]));
        assert(painted(before, after, p.x as int, p.y as int));
        assert(after.pixel(q.x as int, q.y as int) != target);
        assert forall|i: int| 0 <= i < path.len() implies after.pixel(
            (#[trigger] path[i]).x as int,
            path[i].y as int,
        ) == fill by {
            if i < n {
                assert(shorter[i] == path[i]);
            }
        }
    }
}

/// A linked pixel lies in the region and has the colour.
pub proof fn lemma_linked_target(img: Image, region: Rect, c: Color, start: Point, x: int, y: int)
    requires
        linked(img, region, c, start, x, y),
    ensures
        covers(region, x, y),
        img.pixel(x, y) == c,
{
    let path = choose|path: Seq<Point>|
        #[trigger] is_path(img, region, c, path) && path[0] == start && path.last().x == x
            && path.last().y == y;
    assert(path.last() == path[path.len() - 1]);
}

/// Images with the same pixels link the same pixels.
pub proof fn lemma_linked_same_pixels(
    a: Image,
    b: Image,
    region: Rect,
    c: Color,
    start: Point,
    x: int,
    y: int,
)
    requires
        forall|i: int, j: int| #[trigger] a.pixel(i, j) == b.pixel(i, j),
        linked(a, region, c, start, x, y),
    ensures
        linked(b, region, c, start, x, y),
{
    let path = choose|path: Seq<Point>|
        #[trigger] is_path(a, region, c, path) && path[0] == start && path.last().x == x
            && path.last().y == y;
    assert forall|i: int| 0 <= i < path.len() implies covers(
        region,
        (#[trigger] path[i]).x as int,
        path[i].y as int,
    ) && b.pixel(path[i].x as int, path[i].y as int) == c by {
        assert(a.pixel(path[i].x as int, path[i].y as int) == b.pixel(path[i].x as int, path[i].y as int));
    }
    assert(is_path(b, region, c, path));
}

/// Every changed pixel is linked to the start.
#[verifier::opaque]
pub open spec fn painted_linked(original: Image, img: Image, region: Rect, c: Color, start: Point) -> bool {
    forall|px: int, py: int|
        original.in_bounds(px, py) && #[trigger] painted(original, img, px, py) ==> linked(
            original,
            region,
            c,
            start,
            px,
            py,
        )
}

/// Every seed is linked to the start.
#[verifier::opaque]
pub open spec fn seeds_linked(original: Image, region: Rect, c: Color, start: Point, seeds: Seq<Point>) -> bool {
    forall|k: int|
        0 <= k < seeds.len() ==> linked(
            original,
            region,
            c,
            start,
            (#[trigger] seeds[k]).x as int,
            seeds[k].y as int,
        )
}

/// Before anything changed, the start is the one seed and is linked.
pub proof fn lemma_links_init(original: Image, img: Image, region: Rect, c: Color, start: Point)
    requires
        img.data@ == original.data@,
        img.bytes_per_row == original.bytes_per_row,
        covers(region, start.x as int, start.y as int),
        original.pixel(start.x as int, start.y as int) == c,
    ensures
        painted_linked(original, img, region, c, start),
        seeds_linked(original, region, c, start, seq![start]),
{
    reveal(painted_linked);
    reveal(seeds_linked);
    lemma_link_start(original, region, c, start);
    assert(seq![start][0] == start);
}

/// Popping the last seed leaves the rest linked, and the popped one too.
pub proof fn lemma_links_pop(original: Image, region: Rect, c: Color, start: Point, seeds: Seq<Point>)
    requires
        seeds.len() > 0,
        seeds_linked(original, region, c, start, seeds),
    ensures
        seeds_linked(original, region, c, start, seeds.subrange(0, seeds.len() - 1)),
        linked(
            original,
            region,
            c,
            start,
            seeds[seeds.len() - 1].x as int,
            seeds[seeds.len() - 1].y as int,
        ),
{
    reveal(seeds_linked);
    let rest = seeds.subrange(0, seeds.len() - 1);
    assert forall|k: int| 0 <= k < rest.len() implies linked(
        original,
        region,
        c,
        start,
        (#[trigger] rest[k]).x as int,
        rest[k].y as int,
    ) by {
        assert(rest[k] == seeds[k]);
    }
}

/// A neighbour of a linked pixel, of the colour and in the region, joins the
/// seeds as a linked seed.
pub proof fn lemma_links_push(
    original: Image,
    region: Rect,
    c: Color,
    start: Point,
    seeds: Seq<Point>,
    x: int,
    y: int,
    p: Point,
)
    requires
        seeds_linked(original, region, c, start, seeds),
        linked(original, region, c, start, x, y),
        p.y == y,
        p.x == x - 1 || p.x == x + 1,
        covers(region, p.x as int, p.y as int),
        original.pixel(p.x as int, p.y as int) == c,
    ensures
        seeds_linked(original, region, c, start, seeds.push(p)),
{
    reveal(seeds_linked);
    lemma_link_step(original, region, c, start, x, y, p.x as int, p.y as int);
    let more = seeds.push(p);
    assert forall|k: int| 0 <= k < more.len() implies linked(
        original,
        region,
        c,
        start,
        (#[trigger] more[k]).x as int,
        more[k].y as int,
    ) by {
        if k < seeds.len() {
            assert(more[k] == seeds[k]);
        }
    }
}

/// Recolouring pixel `(x, y)` of a walk down from a linked anchor in its
/// column keeps every changed pixel linked, the new one included.
pub proof fn lemma_links_paint(
    original: Image,
    before: Image,
    after: Image,
    region: Rect,
    c: Color,
    fill: Color,
    start: Point,
    x: int,
    y: int,
    anchor: int,
    top_row: int,
)
    requires
        c != fill,
        painted_linked(original, before, region, c, start),
        differs_only_at(before, after, x, y),
        original.size == before.size,
        before.in_bounds(x, y),
        original.pixel(x, y) == c,
        after.pixel(x, y) == fill,
        linked(original, region, c, start, x, anchor),
        top_row <= anchor + 1,
        top_row <= y,
        forall|j: int| top_row <= j < y ==> #[trigger] original.pixel(x, j) == c,
        forall|j: int| top_row <= j <= anchor ==> #[trigger] original.pixel(x, j) == c,
        forall|j: int| top_row <= j <= y ==> #[trigger] covers(region, x, j),
        forall|j: int| top_row <= j <= anchor ==> #[trigger] covers(region, x, j),
        in_i32(x) && in_i32(y) && in_i32(anchor) && in_i32(top_row),
    ensures
        painted_linked(original, after, region, c, start),
        linked(original, region, c, start, x, y),
{
    reveal(painted_linked);
    lemma_linked_target(original, region, c, start, x, anchor);
    if y <= anchor {
        lemma_link_up(original, region, c, start, x, anchor, y);
    } else {
        assert forall|j: int| anchor <= j <= y implies #[trigger] original.pixel(x, j) == c by {
            if anchor < j && j < y {
                assert(top_row <= j);
            }
        }
        assert forall|j: int| anchor <= j <= y implies #[trigger] covers(region, x, j) by {
            if anchor < j {
                assert(top_row <= j);
            }
        }
        lemma_link_down(original, region, c, start, x, anchor, y);
    }
    assert forall|px: int, py: int|
        original.in_bounds(px, py) && #[trigger] painted(original, after, px, py) implies linked(
        original,
        region,
        c,
        start,
        px,
        py,
    ) by {
        if px != x || py != y {
            assert(after.pixel(px, py) == before.pixel(px, py));
            assert(painted(original, before, px, py));
        }
    }
}

/// A closed fill whose changed pixels are all linked changed exactly the
/// linked pixels.
pub proof fn lemma_links_exact(
    original: Image,
    img: Image,
    region: Rect,
    c: Color,
    fill: Color,
    start: Point,
)
    requires
        c != fill,
        painted_linked(original, img, region, c, start),
        recolored_within(original, img, region, c, fill),
        fill_closed(original, img, region, c),
        forall|x: int, y: int| covers(region, x, y) ==> original.in_bounds(x, y),
        img.pixel(start.x as int, start.y as int) == fill,
    ensures
        forall|x: int, y: int|
            original.in_bounds(x, y) ==> (#[trigger] painted(original, img, x, y) <==> linked(
                original,
                region,
                c,
                start,
                x,
                y,
            )),
{
    reveal(painted_linked);
    assert forall|x: int, y: int| original.in_bounds(x, y) && linked(
        original,
        region,
        c,
        start,
        x,
        y,
    ) implies #[trigger] painted(original, img, x, y) by {
        let path = choose|path: Seq<Point>|
            #[trigger] is_path(original, region, c, path) && path[0] == start && path.last().x == x
                && path.last().y == y;
        lemma_closed_reaches(original, img, region, c, fill, path);
        assert(path.last() == path[path.len() - 1]);
        lemma_linked_target(original, region, c, start, x, y);
    }
}

} // verus!
