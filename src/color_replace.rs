use vstd::prelude::*;

use crate::color::Color;
use crate::count::{color_count, differs_only_at, lemma_count_drops};
use crate::geometry::{covers, max_int, min_int, Point, Rect, Size, bottom, left, right, top};
use crate::image::{get_bytes, lemma_put_pixel, lemma_same_pixels_same_bytes, padding_kept, put_bytes, Image};
pub use crate::link::{adjacent, is_path, linked};
use crate::link::{
    column_run, lemma_closed_reaches, lemma_link_down, lemma_link_start, lemma_link_step, lemma_link_up,
    lemma_linked_same_pixels, lemma_linked_target, lemma_links_exact, lemma_links_init, lemma_links_paint,
    lemma_links_pop, lemma_links_push, painted_linked, seeds_linked,
};
use crate::scan::{
    fill_closed, frontier_ok, lemma_neighbors_grow, lemma_pending_grow, lemma_frontier_closed, lemma_seeded_extend,
    lemma_seeded_fresh, lemma_seeded_grow, lemma_seeded_other_column, lemma_walk_end, lemma_walk_paint,
    lemma_walk_start, pending, seeded, accounted, in_box, lemma_accounted_closed, painted,
};

verus! {

/// Why a flood fill was refused.
#[derive(Debug, Clone, Copy, PartialEq, Eq, Structural, Hash)]
pub enum FillError {
    /// The bounding box lies entirely outside the image.
    BoundsOutsideImage,
    /// The start point lies outside the (clamped) bounding box.
    PointOutsideBounds,
    /// The secondary image differs from the primary in size or row stride.
    MismatchedSecondary,
}

impl FillError {
    /// A description of the error for a user.
    pub fn message(&self) -> (s: &'static str)
        ensures
            s@ == match self {
                FillError::BoundsOutsideImage => "Bounding box is outside of the image."@,
                FillError::PointOutsideBounds => "Point outside of image bounds."@,
                FillError::MismatchedSecondary => "The secondary image’s properties do not match the primary’s."@,
            },
    {
        match self {
            FillError::BoundsOutsideImage => "Bounding box is outside of the image.",
            FillError::PointOutsideBounds => "Point outside of image bounds.",
            FillError::MismatchedSecondary => "The secondary image’s properties do not match the primary’s.",
        }
    }
}

/// The rectangle covering the whole image.
pub open spec fn image_rect(img: Image) -> Rect {
    Rect { origin: Point { x: 0, y: 0 }, size: img.size }
}

/// The bounding box clamped to the image, or `None` where they do not meet.
pub open spec fn clamped_region(img: Image, bounding_box: Rect) -> Option<Rect> {
    let l = max_int(left(bounding_box), 0);
    let r = min_int(right(bounding_box), img.size.width as int);
    let t = max_int(top(bounding_box), 0);
    let b = min_int(bottom(bounding_box), img.size.height as int);
    if r < l || b < t {
        None
    } else {
        Some(
            Rect {
                origin: Point { x: l as i32, y: t as i32 },
                size: Size { width: (r - l) as i32, height: (b - t) as i32 },
            },
        )
    }
}

/// A bounding box that a fill can take: its far edges and extent fit `i32`.
pub open spec fn valid_box(r: Rect) -> bool {
    &&& crate::geometry::edges_fit(r)
    &&& r.size.width != i32::MIN
    &&& r.size.height != i32::MIN
}

/// `after` is `before` with some pixels of the colour `target` inside
/// `region` recoloured to `fill`, and nothing else changed.
pub open spec fn recolored_within(
    before: Image,
    after: Image,
    region: Rect,
    target: Color,
    fill: Color,
) -> bool {
    &&& after.wf()
    &&& after.same_layout(&before)
    &&& padding_kept(before, after)
    &&& forall|x: int, y: int|
        before.in_bounds(x, y) ==> #[trigger] after.pixel(x, y) == before.pixel(x, y) || (covers(
            region,
            x,
            y,
        ) && before.pixel(x, y) == target && after.pixel(x, y) == fill)
}

/// `after` is `before` recoloured to `fill` exactly at the pixels where the
/// primary image changed from `primary_before` to `primary_after`.
pub open spec fn mirrored(
    before: Image,
    after: Image,
    primary_before: Image,
    primary_after: Image,
    fill: Color,
) -> bool {
    &&& after.wf()
    &&& after.same_layout(&before)
    &&& padding_kept(before, after)
    &&& forall|x: int, y: int|
        before.in_bounds(x, y) ==> #[trigger] after.pixel(x, y) == if primary_after.pixel(x, y)
            != primary_before.pixel(x, y) {
            fill
        } else {
            before.pixel(x, y)
        }
}

/// Every pixel that differs between the two images lies in `affected`.
pub open spec fn changes_within(before: Image, after: Image, affected: Rect) -> bool {
    forall|x: int, y: int|
        before.in_bounds(x, y) && #[trigger] after.pixel(x, y) != before.pixel(x, y) ==> covers(
            affected,
            x,
            y,
        )
}

/// The affected rectangle lies in `region` and holds the pixel `start`.
pub open spec fn affected_ok(affected: Rect, region: Rect, start: Point) -> bool {
    &&& affected.size.width >= 1
    &&& affected.size.height >= 1
    &&& left(region) <= affected.origin.x
    &&& affected.origin.x + affected.size.width <= right(region)
    &&& top(region) <= affected.origin.y
    &&& affected.origin.y + affected.size.height <= bottom(region)
    &&& covers(affected, start.x as int, start.y as int)
}

/// `v` is the column of the start or of a changed pixel.
pub open spec fn edge_column(before: Image, after: Image, start: Point, v: int) -> bool {
    v == start.x || exists|i: int, j: int|
        before.in_bounds(i, j) && #[trigger] painted(before, after, i, j) && i == v
}

/// `v` is the row of the start or of a changed pixel.
pub open spec fn edge_row(before: Image, after: Image, start: Point, v: int) -> bool {
    v == start.y || exists|i: int, j: int|
        before.in_bounds(i, j) && #[trigger] painted(before, after, i, j) && j == v
}

/// Each side of `affected` passes through the start or a changed pixel.
pub open spec fn affected_tight(before: Image, after: Image, start: Point, affected: Rect) -> bool {
    &&& edge_column(before, after, start, affected.origin.x as int)
    &&& edge_column(before, after, start, affected.origin.x + affected.size.width - 1)
    &&& edge_row(before, after, start, affected.origin.y as int)
    &&& edge_row(before, after, start, affected.origin.y + affected.size.height - 1)
}

/// The changed pixels are exactly those that a path of the target colour
/// inside the region joins to the start.
pub open spec fn changed_exactly_linked(
    before: Image,
    after: Image,
    region: Rect,
    target: Color,
    start: Point,
) -> bool {
    forall|x: int, y: int|
        before.in_bounds(x, y) ==> (#[trigger] painted(before, after, x, y) <==> linked(
            before,
            region,
            target,
            start,
            x,
            y,
        ))
}

/// What a finished fill from `start` with `fill` leaves: only pixels of the
/// start pixel's colour inside `region` changed, to `fill`; unless that
/// colour is `fill` itself, exactly the pixels joined to the start by a path
/// of that colour inside the region changed, and no changed pixel has a
/// neighbour in the region still of that colour; `affected` is the smallest
/// rectangle holding every changed pixel and the start, inside the region.
pub open spec fn filled_from(
    before: Image,
    after: Image,
    region: Rect,
    start: Point,
    fill: Color,
    affected: Rect,
) -> bool {
    let target = before.pixel(start.x as int, start.y as int);
    &&& recolored_within(before, after, region, target, fill)
    &&& target != fill ==> after.pixel(start.x as int, start.y as int) == fill && fill_closed(
        before,
        after,
        region,
        target,
    )
    &&& target != fill ==> changed_exactly_linked(before, after, region, target, start)
    &&& changes_within(before, after, affected)
    &&& affected_ok(affected, region, start)
    &&& affected_tight(before, after, start, affected)
}

/// What a fill leaves depends on the pixels of the image before it alone.
proof fn lemma_filled_from_same_pixels(
    a: Image,
    b: Image,
    after: Image,
    region: Rect,
    start: Point,
    fill: Color,
    affected: Rect,
)
    requires
        a.size == b.size,
        a.bytes_per_row == b.bytes_per_row,
        a.data@ == b.data@,
        forall|i: int, j: int| #[trigger] a.pixel(i, j) == b.pixel(i, j),
        filled_from(a, after, region, start, fill, affected),
    ensures
        filled_from(b, after, region, start, fill, affected),
{
    let target = a.pixel(start.x as int, start.y as int);
    assert forall|x: int, y: int| #[trigger] painted(b, after, x, y) == painted(a, after, x, y) by {
        assert(a.pixel(x, y) == b.pixel(x, y));
    }
    if target != fill {
        assert forall|x: int, y: int| b.in_bounds(x, y) implies (#[trigger] painted(b, after, x, y)
            <==> linked(b, region, target, start, x, y)) by {
            assert(painted(a, after, x, y) == painted(b, after, x, y));
            if linked(a, region, target, start, x, y) {
                lemma_linked_same_pixels(a, b, region, target, start, x, y);
            }
            if linked(b, region, target, start, x, y) {
                lemma_linked_same_pixels(b, a, region, target, start, x, y);
            }
        }
    }
    assert forall|v: int| edge_column(a, after, start, v) implies edge_column(b, after, start, v) by {
        if v != start.x {
            let (i, j) = choose|i: int, j: int|
                a.in_bounds(i, j) && #[trigger] painted(a, after, i, j) && i == v;
            assert(painted(b, after, i, j));
        }
    }
    assert forall|v: int| edge_row(a, after, start, v) implies edge_row(b, after, start, v) by {
        if v != start.y {
            let (i, j) = choose|i: int, j: int|
                a.in_bounds(i, j) && #[trigger] painted(a, after, i, j) && j == v;
            assert(painted(b, after, i, j));
        }
    }
    assert forall|x: int, y: int| b.in_bounds(x, y) && #[trigger] after.pixel(x, y) != b.pixel(x, y) implies covers(
        affected,
        x,
        y,
    ) by {
        assert(after.pixel(x, y) != a.pixel(x, y));
    }
    assert forall|x: int, y: int| b.in_bounds(x, y) implies #[trigger] after.pixel(x, y) == b.pixel(
        x,
        y,
    ) || (covers(region, x, y) && b.pixel(x, y) == target && after.pixel(x, y) == fill) by {
        assert(a.pixel(x, y) == b.pixel(x, y));
    }
}

/// Reads pixel `(x, y)` of an image known to hold it.
pub(crate) fn read_pixel(img: &Image, x: i32, y: i32) -> (c: Color)
    requires
        img.wf(),
        img.in_bounds(x as int, y as int),
    ensures
        c == img.pixel(x as int, y as int),
{
    get_bytes(&img.data, img.offset_of(x, y))
}

/// Writes pixel `(x, y)` of an image known to hold it.
pub(crate) fn write_pixel(img: &mut Image, x: i32, y: i32, c: Color)
    requires
        old(img).wf(),
        old(img).in_bounds(x as int, y as int),
    ensures
        final(img).wf(),
        final(img).same_layout(old(img)),
        final(img).pixel(x as int, y as int) == c,
        differs_only_at(*old(img), *final(img), x as int, y as int),
        padding_kept(*old(img), *final(img)),
{
    let offset = img.offset_of(x, y);
    let ghost before = *img;
    put_bytes(&mut img.data, offset, c);
    proof {
        lemma_put_pixel(&before, x as int, y as int, c, img.data@);
    }
}

/// The scanline flood fill with an explicit stack of seeds.  Pixels of the
/// start pixel's colour that the scan reaches inside the clamped bounding box
/// are recoloured to `fill_color`; where `use_secondary` holds, the same
/// pixels of `secondary` are recoloured too.  Returns the affected rectangle.
#[verifier::rlimit(100)]
#[verifier::spinoff_prover]
fn flood_fill_in_bounds(
    image: &mut Image,
    start: Point,
    fill_color: &Color,
    secondary: &mut Image,
    use_secondary: bool,
    bounding_box: Rect,
) -> (result: Result<Rect, FillError>)
    requires
        old(image).wf(),
        old(secondary).wf(),
        valid_box(bounding_box),
    ensures
        ({
            let region = clamped_region(*old(image), bounding_box);
            match result {
                Err(e) => *final(image) == *old(image) && *final(secondary) == *old(secondary) && (
                match e {
                    FillError::BoundsOutsideImage => region is None,
                    FillError::PointOutsideBounds => region is Some && !covers(
                        region->0,
                        start.x as int,
                        start.y as int,
                    ),
                    FillError::MismatchedSecondary => region is Some && covers(
                        region->0,
                        start.x as int,
                        start.y as int,
                    ) && use_secondary && (old(secondary).size != old(image).size
                        || old(secondary).bytes_per_row != old(image).bytes_per_row),
                }),
                Ok(affected) => region is Some && covers(
                    region->0,
                    start.x as int,
                    start.y as int,
                ) && (use_secondary ==> old(secondary).size == old(image).size
                    && old(secondary).bytes_per_row == old(image).bytes_per_row) && filled_from(
                    *old(image),
                    *final(image),
                    region->0,
                    start,
                    *fill_color,
                    affected,
                ) && (use_secondary ==> mirrored(
                    *old(secondary),
                    *final(secondary),
                    *old(image),
                    *final(image),
                    *fill_color,
                )) && (!use_secondary ==> *final(secondary) == *old(secondary)),
            }
        }),
{
    let image_bounds = Rect { origin: Point::zero(), size: image.size };
    let region = match bounding_box.intersection(&image_bounds) {
        Some(r) => r,
        None => {
            return Err(FillError::BoundsOutsideImage);
        },
    };
    let min_x = region.origin.x;
    let min_y = region.origin.y;
    let max_x = region.origin.x + region.size.width;
    let max_y = region.origin.y + region.size.height;
    if !(min_x <= start.x && start.x < max_x && min_y <= start.y && start.y < max_y) {
        return Err(FillError::PointOutsideBounds);
    }
    if use_secondary && (secondary.size != image.size || secondary.bytes_per_row
        != image.bytes_per_row) {
        return Err(FillError::MismatchedSecondary);
    }
    let ghost original = *image;
    let ghost original_secondary = *secondary;
    let ghost reg = region;
    assert(reg == clamped_region(original, bounding_box)->0);

    let mut affected_min_x = start.x;
    let mut affected_max_x = start.x;
    let mut affected_min_y = start.y;
    let mut affected_max_y = start.y;

    let target_color = read_pixel(image, start.x, start.y);
    let new_color = *fill_color;

    let mut points: Vec<Point> = Vec::new();
    points.push(start);
    let ghost mut started = false;
    proof {
        lemma_links_init(original, *image, reg, target_color, start);
    }

    while points.len() > 0
        invariant
            image.wf(),
            image.size == original.size,
            image.bytes_per_row == original.bytes_per_row,
            image.data@.len() == original.data@.len(),
            original.wf(),
            0 <= min_x <= start.x < max_x <= original.size.width,
            0 <= min_y <= start.y < max_y <= original.size.height,
            reg.origin.x == min_x && reg.origin.y == min_y,
            reg.size.width == max_x - min_x && reg.size.height == max_y - min_y,
            target_color == original.pixel(start.x as int, start.y as int),
            new_color == *fill_color,
            recolored_within(original, *image, reg, target_color, new_color),
            use_secondary ==> mirrored(
                original_secondary,
                *secondary,
                original,
                *image,
                new_color,
            ),
            use_secondary ==> original_secondary.size == original.size
                && original_secondary.bytes_per_row == original.bytes_per_row,
            !use_secondary ==> *secondary == original_secondary,
            forall|k: int|
                0 <= k < points@.len() ==> min_x <= (#[trigger] points@[k]).x < max_x && min_y
                    <= points@[k].y < max_y,
            min_x <= affected_min_x <= start.x <= affected_max_x < max_x,
            min_y <= affected_min_y <= start.y <= affected_max_y < max_y,
            !started ==> points@ == seq![start] && image.data@ == original.data@,
            started && target_color != new_color ==> image.pixel(start.x as int, start.y as int)
                == new_color,
            target_color != new_color ==> frontier_ok(
                original,
                *image,
                target_color,
                reg,
                points@,
                false,
                0,
                0,
            ),
            target_color != new_color ==> accounted(
                original,
                *image,
                target_color,
                reg,
                affected_min_x as int,
                affected_max_x as int,
                affected_min_y as int,
                affected_max_y as int,
            ),
            target_color != new_color ==> painted_linked(original, *image, reg, target_color, start),
            target_color != new_color ==> seeds_linked(original, reg, target_color, start, points@),
            edge_column(original, *image, start, affected_min_x as int),
            edge_column(original, *image, start, affected_max_x as int),
            edge_row(original, *image, start, affected_min_y as int),
            edge_row(original, *image, start, affected_max_y as int),
        decreases 3 * color_count(*image, target_color) + points@.len(),
    {
        let ghost measure = 3 * color_count(*image, target_color) + points@.len();
        let ghost stack = points@;
        let current = points.pop().unwrap();
        assert(stack[stack.len() - 1] == current);
        let ghost first = !started;
        let x = current.x;
        let mut y = current.y;
        let mut color = read_pixel(image, x, y);

        while y >= min_y && color == target_color
            invariant
                image.wf(),
                0 <= min_x <= x < max_x,
                min_y - 1 <= y <= current.y < max_y,
                0 <= min_y,
                max_y <= image.size.height,
                max_x <= image.size.width,
                y >= min_y ==> color == image.pixel(x as int, y as int),
                first ==> current == start && image.pixel(x as int, current.y as int)
                    == target_color,
                forall|j: int| y < j <= current.y ==> image.pixel(x as int, j) == target_color,
            decreases y - min_y + 1,
        {
            y = y - 1;
            if y >= min_y {
                color = read_pixel(image, x, y);
            }
        }
        y = y + 1;
        let ghost top_row = y as int;
        proof {
            if target_color != new_color {
                lemma_links_pop(original, reg, target_color, start, stack);
                assert(stack.subrange(0, stack.len() - 1) == points@);
                assert forall|j: int| top_row <= j <= current.y implies #[trigger] original.pixel(
                    x as int,
                    j,
                ) == target_color by {
                    assert(image.pixel(x as int, j) == target_color);
                }
            }
        }
        proof {
            if target_color != new_color {
                lemma_walk_start(original, *image, target_color, reg, stack, top_row);
                assert(stack.subrange(0, stack.len() - 1) == points@);
            }
        }

        let mut span_left = false;
        let mut span_right = false;

        if y < max_y {
            color = read_pixel(image, x, y);
        }

        while y < max_y && color == target_color && new_color != color
            invariant
                image.wf(),
                image.size == original.size,
                image.bytes_per_row == original.bytes_per_row,
                image.data@.len() == original.data@.len(),
                original.wf(),
                0 <= min_x <= x < max_x <= original.size.width,
                0 <= min_y <= y <= max_y <= original.size.height,
                min_x <= start.x < max_x,
                min_y <= start.y < max_y,
                reg.origin.x == min_x && reg.origin.y == min_y,
                reg.size.width == max_x - min_x && reg.size.height == max_y - min_y,
                new_color == *fill_color,
                y < max_y ==> color == image.pixel(x as int, y as int),
                recolored_within(original, *image, reg, target_color, new_color),
                use_secondary ==> mirrored(
                    original_secondary,
                    *secondary,
                    original,
                    *image,
                    new_color,
                ),
                use_secondary ==> original_secondary.size == original.size
                    && original_secondary.bytes_per_row == original.bytes_per_row,
                !use_secondary ==> *secondary == original_secondary,
                forall|k: int|
                    0 <= k < points@.len() ==> min_x <= (#[trigger] points@[k]).x < max_x && min_y
                        <= points@[k].y < max_y,
                min_x <= affected_min_x <= start.x <= affected_max_x < max_x,
                min_y <= affected_min_y <= start.y <= affected_max_y < max_y,
                3 * color_count(*image, target_color) + points@.len() + 1 <= measure,
                first ==> x == start.x,
                first && target_color != new_color && y <= start.y ==> forall|j: int|
                    y <= j <= start.y ==> image.pixel(x as int, j) == target_color,
                first && target_color != new_color && y > start.y ==> image.pixel(
                    start.x as int,
                    start.y as int,
                ) == new_color,
                !first && target_color != new_color ==> image.pixel(start.x as int, start.y as int)
                    == new_color,
                target_color != new_color ==> frontier_ok(
                    original,
                    *image,
                    target_color,
                    reg,
                    points@,
                    true,
                    x as int,
                    y as int,
                ),
                min_y <= top_row <= y,
                top_row == min_y || image.pixel(x as int, top_row - 1) != target_color,
                forall|j: int| top_row <= j < y ==> #[trigger] image.pixel(x as int, j) != target_color,
                span_left ==> x > min_x && y > top_row && seeded(
                    *image,
                    target_color,
                    points@,
                    x - 1,
                    y - 1,
                ),
                span_right ==> x < max_x - 1 && y > top_row && seeded(
                    *image,
                    target_color,
                    points@,
                    x + 1,
                    y - 1,
                ),
                target_color != new_color ==> accounted(
                    original,
                    *image,
                    target_color,
                    reg,
                    affected_min_x as int,
                    affected_max_x as int,
                    affected_min_y as int,
                    affected_max_y as int,
                ),
                target_color != new_color ==> painted_linked(original, *image, reg, target_color, start),
                target_color != new_color ==> seeds_linked(original, reg, target_color, start, points@),
                edge_column(original, *image, start, affected_min_x as int),
                edge_column(original, *image, start, affected_max_x as int),
                edge_row(original, *image, start, affected_min_y as int),
                edge_row(original, *image, start, affected_max_y as int),
                top_row <= current.y + 1,
                target_color != new_color ==> linked(
                    original,
                    reg,
                    target_color,
                    start,
                    x as int,
                    current.y as int,
                ),
                forall|j: int| top_row <= j < y ==> #[trigger] original.pixel(x as int, j) == target_color,
                target_color != new_color ==> forall|j: int|
                    top_row <= j <= current.y ==> #[trigger] original.pixel(x as int, j) == target_color,
            decreases max_y - y,
        {
            let ghost before = *image;
            let ghost before_secondary = *secondary;
            let ghost (box_x0, box_x1, box_y0, box_y1) = (
                affected_min_x as int,
                affected_max_x as int,
                affected_min_y as int,
                affected_max_y as int,
            );
            write_pixel(image, x, y, new_color);
            if use_secondary {
                write_pixel(secondary, x, y, new_color);
            }
            proof {
                lemma_count_drops(before, *image, target_color, x as int, y as int);
                if start.x != x || start.y != y {
                    assert(image.pixel(start.x as int, start.y as int) == before.pixel(
                        start.x as int,
                        start.y as int,
                    ));
                }
                if first && target_color != new_color && y < start.y {
                    assert forall|j: int| y + 1 <= j <= start.y implies image.pixel(x as int, j)
                        == target_color by {
                        assert(image.pixel(x as int, j) == before.pixel(x as int, j));
                    }
                }
                assert forall|i: int, j: int| original.in_bounds(i, j) implies #[trigger] image.pixel(
                    i,
                    j,
                ) == original.pixel(i, j) || (covers(reg, i, j) && original.pixel(i, j)
                    == target_color && image.pixel(i, j) == new_color) by {
                    if i != x || j != y {
                        assert(image.pixel(i, j) == before.pixel(i, j));
                    }
                }
                if use_secondary {
                    assert forall|i: int, j: int| original_secondary.in_bounds(i, j) implies #[trigger] secondary.pixel(
                        i,
                        j,
                    ) == if image.pixel(i, j) != original.pixel(i, j) {
                        new_color
                    } else {
                        original_secondary.pixel(i, j)
                    } by {
                        if i != x || j != y {
                            assert(image.pixel(i, j) == before.pixel(i, j));
                            assert(secondary.pixel(i, j) == before_secondary.pixel(i, j));
                        }
                    }
                }
            }

            proof {
                assert(original.pixel(x as int, y as int) == target_color);
                if target_color != new_color {
                    lemma_walk_paint(
                        original,
                        before,
                        *image,
                        target_color,
                        new_color,
                        reg,
                        points@,
                        x as int,
                        y as int,
                        top_row,
                    );
                }
                if top_row > min_y {
                    assert(image.pixel(x as int, top_row - 1) == before.pixel(x as int, top_row - 1));
                }
                assert forall|j: int| top_row <= j < y + 1 implies #[trigger] image.pixel(x as int, j)
                    != target_color by {
                    if j != y {
                        assert(image.pixel(x as int, j) == before.pixel(x as int, j));
                    }
                }
            }
            proof {
                let (xi, yi) = (x as int, y as int);
                if target_color != new_color {
                    lemma_links_paint(
                        original,
                        before,
                        *image,
                        reg,
                        target_color,
                        new_color,
                        start,
                        xi,
                        yi,
                        current.y as int,
                        top_row,
                    );
                }
                assert forall|v: int| edge_column(original, before, start, v) implies edge_column(
                    original,
                    *image,
                    start,
                    v,
                ) by {
                    if v != start.x {
                        let (i, j) = choose|i: int, j: int|
                            original.in_bounds(i, j) && #[trigger] painted(original, before, i, j)
                                && i == v;
                        assert(before.pixel(i, j) == new_color);
                        assert(image.pixel(i, j) == before.pixel(i, j));
                        assert(painted(original, *image, i, j));
                    }
                }
                assert forall|v: int| edge_row(original, before, start, v) implies edge_row(
                    original,
                    *image,
                    start,
                    v,
                ) by {
                    if v != start.y {
                        let (i, j) = choose|i: int, j: int|
                            original.in_bounds(i, j) && #[trigger] painted(original, before, i, j)
                                && j == v;
                        assert(before.pixel(i, j) == new_color);
                        assert(image.pixel(i, j) == before.pixel(i, j));
                        assert(painted(original, *image, i, j));
                    }
                }
                assert(painted(original, *image, xi, yi));
            }
            let ghost seeds0 = points@;

            if x > min_x {
                let west_point = Point { x: x - 1, y };
                color = read_pixel(image, west_point.x, west_point.y);
                let ghost span_before = span_left;
                if !span_left && color == target_color {
                    proof {
                        lemma_seeded_fresh(*image, target_color, points@, west_point);
                        if target_color != new_color {
                            lemma_links_push(
                                original,
                                reg,
                                target_color,
                                start,
                                points@,
                                x as int,
                                y as int,
                                west_point,
                            );
                        }
                    }
                    points.push(west_point);
                    span_left = true;
                } else if span_left && color != target_color {
                    span_left = false;
                } else if span_left {
                    proof {
                        lemma_seeded_other_column(
                            before,
                            *image,
                            target_color,
                            points@,
                            x as int,
                            y as int,
                            x - 1,
                            y - 1,
                        );
                        lemma_seeded_extend(*image, target_color, points@, x - 1, y as int);
                    }
                }
            }
            let ghost seeds1 = points@;
            if x < max_x - 1 {
                let east_point = Point { x: x + 1, y };
                color = read_pixel(image, east_point.x, east_point.y);
                if !span_right && color == target_color {
                    proof {
                        lemma_seeded_fresh(*image, target_color, points@, east_point);
                        if target_color != new_color {
                            lemma_links_push(
                                original,
                                reg,
                                target_color,
                                start,
                                points@,
                                x as int,
                                y as int,
                                east_point,
                            );
                        }
                    }
                    points.push(east_point);
                    span_right = true;
                } else if span_right && color != target_color {
                    span_right = false;
                } else if span_right {
                    proof {
                        lemma_seeded_other_column(
                            before,
                            *image,
                            target_color,
                            seeds0,
                            x as int,
                            y as int,
                            x + 1,
                            y - 1,
                        );
                        lemma_seeded_extend(*image, target_color, seeds0, x + 1, y as int);
                        assert(points@.subrange(0, seeds0.len() as int) == seeds0);
                        lemma_seeded_grow(*image, target_color, seeds0, points@, x + 1, y as int);
                    }
                }
            }
            proof {
                if target_color != new_color {
                    assert(points@.subrange(0, seeds1.len() as int) == seeds1);
                    assert(seeds1.subrange(0, seeds0.len() as int) == seeds0);
                    assert(points@.subrange(0, seeds0.len() as int) == seeds0);
                    let (xi, yi) = (x as int, y as int);

                    if span_left {
                        lemma_seeded_grow(*image, target_color, seeds1, points@, xi - 1, yi);
                    }
                    assert(pending(*image, target_color, reg, points@, true, xi, yi + 1, xi - 1, yi));
                    assert(pending(*image, target_color, reg, points@, true, xi, yi + 1, xi + 1, yi));
                    lemma_pending_grow(*image, target_color, reg, seeds0, points@, true, xi, yi + 1, xi, yi - 1);
                    lemma_pending_grow(*image, target_color, reg, seeds0, points@, true, xi, yi + 1, xi, yi + 1);
                    assert forall|px: int, py: int|
                        original.in_bounds(px, py) && #[trigger] crate::scan::painted(original, *image, px, py)
                            implies crate::scan::neighbors_pending(*image, target_color, reg, points@, true, xi, yi + 1, px, py) by {
                        if px != xi || py != yi {
                            lemma_neighbors_grow(*image, target_color, reg, seeds0, points@, true, xi, yi + 1, px, py);
                        }
                    }
                }
            }
            if !span_right || !span_left {
                if x < affected_min_x {
                    affected_min_x = x;
                }
                if x > affected_max_x {
                    affected_max_x = x;
                }
                if y < affected_min_y {
                    affected_min_y = y;
                }
                if y > affected_max_y {
                    affected_max_y = y;
                }
            }
            proof {
                if target_color != new_color {
                    let (xi, yi) = (x as int, y as int);
                    let (nx0, nx1, ny0, ny1) = (
                        affected_min_x as int,
                        affected_max_x as int,
                        affected_min_y as int,
                        affected_max_y as int,
                    );
                    assert forall|px: int, py: int|
                        original.in_bounds(px, py) && #[trigger] painted(original, *image, px, py)
                            implies in_box(nx0, nx1, ny0, ny1, px, py) || (covers(reg, px - 1, py)
                            && covers(reg, px + 1, py) && (image.pixel(px - 1, py) == target_color
                            || in_box(nx0, nx1, ny0, ny1, px - 1, py)) && (image.pixel(px + 1, py)
                            == target_color || in_box(nx0, nx1, ny0, ny1, px + 1, py))) by {
                        if px != xi || py != yi {
                            assert(image.pixel(px, py) == before.pixel(px, py));
                            assert(painted(original, before, px, py));
                            assert(covers(reg, px, py));
                            if px - 1 != xi || py != yi {
                                if covers(reg, px - 1, py) {
                                    assert(image.pixel(px - 1, py) == before.pixel(px - 1, py));
                                }
                            }
                            if px + 1 != xi || py != yi {
                                if covers(reg, px + 1, py) {
                                    assert(image.pixel(px + 1, py) == before.pixel(px + 1, py));
                                }
                            }
                        }
                    }
                }
            }
            y = y + 1;
            if y < max_y {
                color = read_pixel(image, x, y);
            }
        }
        proof {
            started = true;
            if target_color != new_color {
                lemma_walk_end(original, *image, target_color, reg, points@, x as int, y as int);
            }
        }
    }

    proof {
        if target_color != new_color {
            lemma_frontier_closed(original, *image, target_color, reg, points@);
            lemma_accounted_closed(
                original,
                *image,
                target_color,
                reg,
                affected_min_x as int,
                affected_max_x as int,
                affected_min_y as int,
                affected_max_y as int,
            );
        }
    }
    let affected = Rect::new(
        affected_min_x,
        affected_min_y,
        affected_max_x - affected_min_x + 1,
        affected_max_y - affected_min_y + 1,
    );
    proof {
        if target_color != new_color {
            lemma_links_exact(original, *image, reg, target_color, new_color, start);
        }
        assert(affected_tight(original, *image, start, affected));
        assert forall|x: int, y: int|
            original.in_bounds(x, y) && #[trigger] image.pixel(x, y) != original.pixel(x, y) implies covers(
            affected,
            x,
            y,
        ) by {
            assert(painted(original, *image, x, y));
        }
    }
    Ok(affected)
}

/// Fills the pixels of the start pixel's colour reached from `start` with
/// `fill_color`, scanning the whole image; returns the affected rectangle.
pub fn flood_fill(image: &mut Image, start: Point, fill_color: &Color) -> (result: Result<
    Rect,
    FillError,
>)
    requires
        old(image).wf(),
    ensures
        match result {
            Err(e) => e == FillError::PointOutsideBounds && !old(image).in_bounds(
                start.x as int,
                start.y as int,
            ) && *final(image) == *old(image),
            Ok(affected) => old(image).in_bounds(start.x as int, start.y as int) && filled_from(
                *old(image),
                *final(image),
                image_rect(*old(image)),
                start,
                *fill_color,
                affected,
            ),
        },
{
    let mut no_secondary = Image::empty(Size::zero());
    let bounds = Rect { origin: Point::zero(), size: image.size };
    assert(clamped_region(*image, bounds) == Some(image_rect(*image)));
    flood_fill_in_bounds(image, start, fill_color, &mut no_secondary, false, bounds)
}

/// Fills like `flood_fill`, but only inside `bounding_box` clamped to the
/// image.
pub fn flood_fill_within(
    image: &mut Image,
    start: Point,
    fill_color: &Color,
    bounding_box: Rect,
) -> (result: Result<Rect, FillError>)
    requires
        old(image).wf(),
        valid_box(bounding_box),
    ensures
        ({
            let region = clamped_region(*old(image), bounding_box);
            match result {
                Err(e) => *final(image) == *old(image) && match e {
                    FillError::BoundsOutsideImage => region is None,
                    FillError::PointOutsideBounds => region is Some && !covers(
                        region->0,
                        start.x as int,
                        start.y as int,
                    ),
                    FillError::MismatchedSecondary => false,
                },
                Ok(affected) => region is Some && covers(
                    region->0,
                    start.x as int,
                    start.y as int,
                ) && filled_from(*old(image), *final(image), region->0, start, *fill_color, affected),
            }
        }),
{
    let mut no_secondary = Image::empty(Size::zero());
    flood_fill_in_bounds(image, start, fill_color, &mut no_secondary, false, bounding_box)
}

/// Fills a copy of `reference_image` from `start` and recolours the same
/// pixels of `target_image`, which must match the reference in size and row
/// stride; the reference itself is left as it is.
pub fn flood_fill_with_reference(
    target_image: &mut Image,
    reference_image: &Image,
    start: Point,
    fill_color: &Color,
) -> (result: Result<Rect, FillError>)
    requires
        old(target_image).wf(),
        reference_image.wf(),
    ensures
        match result {
            Err(e) => *final(target_image) == *old(target_image) && match e {
                FillError::BoundsOutsideImage => false,
                FillError::PointOutsideBounds => !reference_image.in_bounds(
                    start.x as int,
                    start.y as int,
                ),
                FillError::MismatchedSecondary => reference_image.in_bounds(
                    start.x as int,
                    start.y as int,
                ) && (old(target_image).size != reference_image.size
                    || old(target_image).bytes_per_row != reference_image.bytes_per_row),
            },
            Ok(affected) => reference_image.in_bounds(start.x as int, start.y as int)
                && old(target_image).size == reference_image.size
                && old(target_image).bytes_per_row == reference_image.bytes_per_row
                && exists|filled: Image|
                    filled_from(
                        *reference_image,
                        filled,
                        image_rect(*reference_image),
                        start,
                        *fill_color,
                        affected,
                    ) && mirrored(
                        *old(target_image),
                        *final(target_image),
                        *reference_image,
                        filled,
                        *fill_color,
                    ),
        },
{
    let mut reference_clone = reference_image.clone();
    let ghost reference = *reference_image;
    let bounds = Rect { origin: Point::zero(), size: reference_clone.size };
    assert(clamped_region(reference_clone, bounds) == Some(image_rect(reference_clone)));
    let ghost before_clone = reference_clone;
    let result = flood_fill_in_bounds(
        &mut reference_clone,
        start,
        fill_color,
        target_image,
        true,
        bounds,
    );
    proof {
        assert(before_clone.data@ == reference.data@);
        assert forall|x: int, y: int| #[trigger] before_clone.pixel(x, y) == reference.pixel(x, y) by {}
        if result is Ok {
            let filled = reference_clone;
            assert(recolored_within(
                reference,
                filled,
                image_rect(reference),
                reference.pixel(start.x as int, start.y as int),
                *fill_color,
            ));
            assert(mirrored(*old(target_image), *target_image, reference, filled, *fill_color));
            let affected = result->Ok_0;
            assert forall|x: int, y: int| #[trigger] before_clone.pixel(x, y) == reference.pixel(x, y) by {}
            assert(image_rect(reference) == image_rect(before_clone));
            lemma_filled_from_same_pixels(
                before_clone,
                reference,
                filled,
                image_rect(reference),
                start,
                *fill_color,
                affected,
            );
        }
    }
    result
}

/// Filling with the colour already at the start point leaves the buffer
/// byte for byte as it was, and the affected rectangle still holds the
/// start.
pub proof fn lemma_fill_with_own_color_is_identity(
    before: Image,
    after: Image,
    region: Rect,
    start: Point,
    affected: Rect,
)
    requires
        before.wf(),
        filled_from(
            before,
            after,
            region,
            start,
            before.pixel(start.x as int, start.y as int),
            affected,
        ),
    ensures
        after.data@ == before.data@,
        after.size == before.size,
        after.bytes_per_row == before.bytes_per_row,
        covers(affected, start.x as int, start.y as int),
{
    let target = before.pixel(start.x as int, start.y as int);
    assert forall|x: int, y: int| before.in_bounds(x, y) implies #[trigger] after.pixel(x, y)
        == before.pixel(x, y) by {
        assert(after.pixel(x, y) == before.pixel(x, y) || (before.pixel(x, y) == target
            && after.pixel(x, y) == target));
    }
    lemma_same_pixels_same_bytes(before, after);
}

/// A fill that recoloured its start pixel has recoloured every pixel that a
/// path of side-by-side pixels of the target colour inside the region joins
/// to the start.
pub proof fn lemma_fill_reaches_connected(
    before: Image,
    after: Image,
    region: Rect,
    fill: Color,
    affected: Rect,
    path: Seq<Point>,
)
    requires
        path.len() > 0,
        filled_from(before, after, region, path[0], fill, affected),
        before.pixel(path[0].x as int, path[0].y as int) != fill,
        forall|x: int, y: int| covers(region, x, y) ==> before.in_bounds(x, y),
        is_path(before, region, before.pixel(path[0].x as int, path[0].y as int), path),
    ensures
        forall|i: int|
            0 <= i < path.len() ==> after.pixel((#[trigger] path[i]).x as int, path[i].y as int)
                == fill,
{
    let target = before.pixel(path[0].x as int, path[0].y as int);
    lemma_closed_reaches(before, after, region, target, fill, path);
}

/// A changed pixel's neighbour of the target colour in the region changed
/// too, to the fill colour.
proof fn lemma_fill_step(
    before: Image,
    after: Image,
    region: Rect,
    target: Color,
    fill: Color,
    x: int,
    y: int,
    nx: int,
    ny: int,
)
    requires
        target != fill,
        recolored_within(before, after, region, target, fill),
        fill_closed(before, after, region, target),
        before.in_bounds(x, y),
        after.pixel(x, y) == fill,
        before.pixel(x, y) == target,
        before.in_bounds(nx, ny),
        covers(region, nx, ny),
        before.pixel(nx, ny) == target,
        adjacent(Point { x: x as i32, y: y as i32 }, Point { x: nx as i32, y: ny as i32 }),
        crate::geometry::in_i32(x) && crate::geometry::in_i32(y),
        crate::geometry::in_i32(nx) && crate::geometry::in_i32(ny),
    ensures
        after.pixel(nx, ny) == fill,
{
    assert(crate::scan::painted(before, after, x, y));
}

/// Along row `y`, the fill spreads from column `from` to column `to`.
proof fn lemma_fill_row(
    before: Image,
    after: Image,
    target: Color,
    fill: Color,
    y: int,
    from: int,
    to: int,
)
    requires
        target != fill,
        before.wf(),
        recolored_within(before, after, image_rect(before), target, fill),
        fill_closed(before, after, image_rect(before), target),
        forall|i: int, j: int| before.in_bounds(i, j) ==> #[trigger] before.pixel(i, j) == target,
        before.in_bounds(from, y),
        before.in_bounds(to, y),
        after.pixel(from, y) == fill,
    ensures
        after.pixel(to, y) == fill,
    decreases if from <= to {
        to - from
    } else {
        from - to
    },
{
    if from < to {
        lemma_fill_step(before, after, image_rect(before), target, fill, from, y, from + 1, y);
        lemma_fill_row(before, after, target, fill, y, from + 1, to);
    } else if from > to {
        lemma_fill_step(before, after, image_rect(before), target, fill, from, y, from - 1, y);
        lemma_fill_row(before, after, target, fill, y, from - 1, to);
    }
}

/// Along column `x`, the fill spreads from row `from` to row `to`.
proof fn lemma_fill_column(
    before: Image,
    after: Image,
    target: Color,
    fill: Color,
    x: int,
    from: int,
    to: int,
)
    requires
        target != fill,
        before.wf(),
        recolored_within(before, after, image_rect(before), target, fill),
        fill_closed(before, after, image_rect(before), target),
        forall|i: int, j: int| before.in_bounds(i, j) ==> #[trigger] before.pixel(i, j) == target,
        before.in_bounds(x, from),
        before.in_bounds(x, to),
        after.pixel(x, from) == fill,
    ensures
        after.pixel(x, to) == fill,
    decreases if from <= to {
        to - from
    } else {
        from - to
    },
{
    if from < to {
        lemma_fill_step(before, after, image_rect(before), target, fill, x, from, x, from + 1);
        lemma_fill_column(before, after, target, fill, x, from + 1, to);
    } else if from > to {
        lemma_fill_step(before, after, image_rect(before), target, fill, x, from, x, from - 1);
        lemma_fill_column(before, after, target, fill, x, from - 1, to);
    }
}

/// Filling an image of one colour with another colour, from any of its
/// pixels, recolours the whole image, and the affected rectangle is the
/// whole image.
pub proof fn lemma_uniform_fill_covers_all(
    before: Image,
    after: Image,
    start: Point,
    fill: Color,
    affected: Rect,
)
    requires
        before.wf(),
        before.in_bounds(start.x as int, start.y as int),
        filled_from(before, after, image_rect(before), start, fill, affected),
        forall|x: int, y: int|
            before.in_bounds(x, y) ==> #[trigger] before.pixel(x, y) == before.pixel(
                start.x as int,
                start.y as int,
            ),
        before.pixel(start.x as int, start.y as int) != fill,
    ensures
        forall|x: int, y: int| before.in_bounds(x, y) ==> #[trigger] after.pixel(x, y) == fill,
        affected == image_rect(before),
{
    let target = before.pixel(start.x as int, start.y as int);
    let (sx, sy) = (start.x as int, start.y as int);
    assert forall|x: int, y: int| before.in_bounds(x, y) implies #[trigger] after.pixel(x, y)
        == fill by {
        lemma_fill_row(before, after, target, fill, sy, sx, x);
        lemma_fill_column(before, after, target, fill, x, sy, y);
    }
    let (w, h) = (before.size.width as int, before.size.height as int);
    assert(after.pixel(0, 0) != before.pixel(0, 0));
    assert(after.pixel(w - 1, h - 1) != before.pixel(w - 1, h - 1));
    assert(covers(affected, 0, 0));
    assert(covers(affected, w - 1, h - 1));
}

/// Replaces every pixel of one colour with another.
pub fn replace_color(image: &mut Image, target_color: &Color, replacement_color: &Color)
    requires
        old(image).wf(),
    ensures
        final(image).wf(),
        final(image).same_layout(old(image)),
        padding_kept(*old(image), *final(image)),
        forall|x: int, y: int|
            old(image).in_bounds(x, y) ==> #[trigger] final(image).pixel(x, y) == if old(
                image,
            ).pixel(x, y) == *target_color {
                *replacement_color
            } else {
                old(image).pixel(x, y)
            },
{
    let ghost original = *image;
    let mut y: i32 = 0;
    while y < image.size.height
        invariant
            image.wf(),
            image.same_layout(&original),
            padding_kept(original, *image),
            original.wf(),
            0 <= y <= original.size.height,
            forall|i: int, j: int|
                original.in_bounds(i, j) ==> #[trigger] image.pixel(i, j) == if j < y && original.pixel(i, j)
                    == *target_color {
                    *replacement_color
                } else {
                    original.pixel(i, j)
                },
        decreases original.size.height - y,
    {
        let mut x: i32 = 0;
        while x < image.size.width
            invariant
                image.wf(),
                image.same_layout(&original),
                padding_kept(original, *image),
            padding_kept(original, *image),
                original.wf(),
                0 <= y < original.size.height,
                0 <= x <= original.size.width,
                forall|i: int, j: int|
                    original.in_bounds(i, j) ==> #[trigger] image.pixel(i, j) == if (j < y || (j == y
                        && i < x)) && original.pixel(i, j) == *target_color {
                        *replacement_color
                    } else {
                        original.pixel(i, j)
                    },
            decreases original.size.width - x,
        {
            let color = read_pixel(image, x, y);
            if color == *target_color {
                let ghost before = *image;
                write_pixel(image, x, y, *replacement_color);
                assert forall|i: int, j: int| original.in_bounds(i, j) implies #[trigger] image.pixel(
                    i,
                    j,
                ) == if (j < y || (j == y && i < x + 1)) && original.pixel(i, j) == *target_color {
                    *replacement_color
                } else {
                    original.pixel(i, j)
                } by {
                    if i != x || j != y {
                        assert(image.pixel(i, j) == before.pixel(i, j));
                    }
                }
            }
            x = x + 1;
        }
        y = y + 1;
    }
}

/// The colour that `mask_image` gives a pixel of the given colour.
pub open spec fn mask_pixel(source: Color, target: Color) -> Color {
    if source == target {
        Color { red: 0, green: 0, blue: 0, alpha: 0xff }
    } else {
        Color { red: 0, green: 0, blue: 0, alpha: 0 }
    }
}

/// Returns an image of the source's size, opaque black where the source has
/// the target colour and transparent elsewhere.
pub fn mask_image(source_image: &Image, target_color: &Color) -> (image: Image)
    requires
        source_image.wf(),
        4 * source_image.size.width <= u32::MAX,
        4 * source_image.size.width * source_image.size.height <= u32::MAX,
    ensures
        image.wf(),
        image.size == source_image.size,
        forall|x: int, y: int|
            image.in_bounds(x, y) ==> #[trigger] image.pixel(x, y) == mask_pixel(
                source_image.pixel(x, y),
                *target_color,
            ),
{
    let mut image = Image::empty(source_image.size);
    let ghost blank = image;
    assert forall|i: int, j: int| blank.in_bounds(i, j) implies #[trigger] blank.pixel(i, j) == (Color {
        red: 0,
        green: 0,
        blue: 0,
        alpha: 0,
    }) by {
        crate::image::lemma_pixel_inside(&blank, i, j);
    }
    let mut y: i32 = 0;
    while y < image.size.height
        invariant
            image.wf(),
            image.same_layout(&blank),
            blank.size == source_image.size,
            source_image.wf(),
            0 <= y <= source_image.size.height,
            forall|i: int, j: int|
                blank.in_bounds(i, j) ==> #[trigger] image.pixel(i, j) == if j < y {
                    mask_pixel(source_image.pixel(i, j), *target_color)
                } else {
                    blank.pixel(i, j)
                },
            forall|i: int, j: int| blank.in_bounds(i, j) ==> #[trigger] blank.pixel(i, j) == (Color {
                red: 0,
                green: 0,
                blue: 0,
                alpha: 0,
            }),
        decreases source_image.size.height - y,
    {
        let mut x: i32 = 0;
        while x < image.size.width
            invariant
                image.wf(),
                image.same_layout(&blank),
                blank.size == source_image.size,
                source_image.wf(),
                0 <= y < source_image.size.height,
                0 <= x <= source_image.size.width,
                forall|i: int, j: int|
                    blank.in_bounds(i, j) ==> #[trigger] image.pixel(i, j) == if j < y || (j == y
                        && i < x) {
                        mask_pixel(source_image.pixel(i, j), *target_color)
                    } else {
                        blank.pixel(i, j)
                    },
                forall|i: int, j: int| blank.in_bounds(i, j) ==> #[trigger] blank.pixel(i, j) == (Color {
                    red: 0,
                    green: 0,
                    blue: 0,
                    alpha: 0,
                }),
            decreases source_image.size.width - x,
        {
            let ghost before = image;
            let source_color = source_image.pixel_color(Point { x, y });
            if source_color == Some(*target_color) {
                write_pixel(&mut image, x, y, Color { red: 0, green: 0, blue: 0, alpha: u8::MAX });
                assert forall|i: int, j: int| blank.in_bounds(i, j) implies #[trigger] image.pixel(
                    i,
                    j,
                ) == if j < y || (j == y && i < x + 1) {
                    mask_pixel(source_image.pixel(i, j), *target_color)
                } else {
                    blank.pixel(i, j)
                } by {
                    if i != x || j != y {
                        assert(image.pixel(i, j) == before.pixel(i, j));
                    }
                }
            }
            x = x + 1;
        }
        y = y + 1;
    }
    image
}

} // verus!
