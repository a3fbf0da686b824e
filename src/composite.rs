use vstd::prelude::*;

use crate::blend_mode::{porter_duff, BlendMode};
use crate::color::Color;
use crate::geometry::{in_i32, max_int, min_int, Point};
use crate::image::{lemma_same_pixels_same_bytes, padding_kept, Image};

verus! {

/// A value that a layer either owns or borrows.
#[derive(Debug, Clone)]
pub enum Either<'a, T> {
    /// The owned value.
    Owned(T),
    /// The borrowed value.
    Borrowed(&'a T),
}

impl<'a, T> Either<'a, T> {
    /// The value, owned or borrowed.
    pub fn get(&self) -> (r: &T)
        ensures
            *r == match self {
                Either::Owned(value) => *value,
                Either::Borrowed(value) => **value,
            },
    {
        match self {
            Either::Owned(value) => value,
            Either::Borrowed(value) => value,
        }
    }
}

/// The first column of the target that a source placed at `location` covers.
pub open spec fn first_x(location: Point) -> int {
    max_int(location.x as int, 0)
}

/// One past the last column of `target` that `source` placed at `location`
/// covers.
pub open spec fn end_x(target: Image, source: Image, location: Point) -> int {
    min_int(target.size.width as int, source.size.width + location.x)
}

/// The first row of the target that a source placed at `location` covers.
pub open spec fn first_y(location: Point) -> int {
    max_int(location.y as int, 0)
}

/// One past the last row of `target` that `source` placed at `location`
/// covers.
pub open spec fn end_y(target: Image, source: Image, location: Point) -> int {
    min_int(target.size.height as int, source.size.height + location.y)
}

/// Whether pixel `(x, y)` of `target` lies under `source` placed at
/// `location`.
pub open spec fn under_source(target: Image, source: Image, location: Point, x: int, y: int) -> bool {
    first_x(location) <= x < end_x(target, source, location) && first_y(location) <= y < end_y(
        target,
        source,
        location,
    )
}

/// The source placed at `location` lies entirely off the target, past one
/// of its four sides.
pub open spec fn off_canvas(target: Image, source: Image, location: Point) -> bool {
    location.x >= target.size.width || location.y >= target.size.height || location.x
        + source.size.width <= 0 || location.y + source.size.height <= 0
}

/// Placing the source at `location` keeps its far edges within `i32`.
pub open spec fn placement_fits(source: Image, location: Point) -> bool {
    in_i32(source.size.width + location.x) && in_i32(source.size.height + location.y)
}

/// Draws `source` over `image` with its top-left corner at `location`,
/// clipped to the image on all four sides: each covered pixel becomes
/// `blend(base, source pixel)`, every other pixel is left as it was.
pub fn draw_blended<F: Fn(Color, Color) -> Color>(
    image: &mut Image,
    source: &Image,
    location: Point,
    blend: &F,
)
    requires
        old(image).wf(),
        source.wf(),
        placement_fits(*source, location),
        forall|base: Color, top: Color| blend.requires((base, top)),
    ensures
        final(image).wf(),
        final(image).same_layout(old(image)),
        padding_kept(*old(image), *final(image)),
        off_canvas(*old(image), *source, location) ==> final(image).data@ == old(image).data@,
        forall|x: int, y: int|
            old(image).in_bounds(x, y) ==> if under_source(*old(image), *source, location, x, y) {
                blend.ensures(
                    (old(image).pixel(x, y), source.pixel(x - location.x, y - location.y)),
                    #[trigger] final(image).pixel(x, y),
                )
            } else {
                final(image).pixel(x, y) == old(image).pixel(x, y)
            },
{
    let ghost original = *image;
    let start_x: i32 = if location.x < 0 { 0 } else { location.x };
    let start_y: i32 = if location.y < 0 { 0 } else { location.y };
    let far_x = source.size.width + location.x;
    let far_y = source.size.height + location.y;
    let stop_x: i32 = if image.size.width <= far_x { image.size.width } else { far_x };
    let stop_y: i32 = if image.size.height <= far_y { image.size.height } else { far_y };
    let mut y: i32 = start_y;
    while y < stop_y
        invariant
            image.wf(),
            image.same_layout(&original),
            padding_kept(original, *image),
            original.wf(),
            source.wf(),
            forall|base: Color, top: Color| blend.requires((base, top)),
            start_x == first_x(location),
            stop_x == end_x(original, *source, location),
            start_y == first_y(location),
            stop_y == end_y(original, *source, location),
            start_y <= y,
            start_y <= stop_y ==> y <= stop_y,
            forall|i: int, j: int|
                original.in_bounds(i, j) ==> if under_source(original, *source, location, i, j)
                    && j < y {
                    blend.ensures(
                        (original.pixel(i, j), source.pixel(i - location.x, j - location.y)),
                        #[trigger] image.pixel(i, j),
                    )
                } else {
                    image.pixel(i, j) == original.pixel(i, j)
                },
        decreases stop_y - y,
    {
        let mut x: i32 = start_x;
        while x < stop_x
            invariant
                image.wf(),
                image.same_layout(&original),
                padding_kept(original, *image),
                original.wf(),
                source.wf(),
                forall|base: Color, top: Color| blend.requires((base, top)),
                start_x == first_x(location),
                stop_x == end_x(original, *source, location),
                start_y == first_y(location),
                stop_y == end_y(original, *source, location),
                start_y <= y < stop_y,
                start_x <= x,
                start_x <= stop_x ==> x <= stop_x,
                forall|i: int, j: int|
                    original.in_bounds(i, j) ==> if under_source(original, *source, location, i, j)
                        && (j < y || (j == y && i < x)) {
                        blend.ensures(
                            (original.pixel(i, j), source.pixel(i - location.x, j - location.y)),
                            #[trigger] image.pixel(i, j),
                        )
                    } else {
                        image.pixel(i, j) == original.pixel(i, j)
                    },
            decreases stop_x - x,
        {
            let top = crate::color_replace::read_pixel(source, x - location.x, y - location.y);
            let base = crate::color_replace::read_pixel(image, x, y);
            let blended = blend(base, top);
            let ghost before = *image;
            crate::color_replace::write_pixel(image, x, y, blended);
            assert forall|i: int, j: int| original.in_bounds(i, j) implies if under_source(
                original,
                *source,
                location,
                i,
                j,
            ) && (j < y || (j == y && i < x + 1)) {
                blend.ensures(
                    (original.pixel(i, j), source.pixel(i - location.x, j - location.y)),
                    #[trigger] image.pixel(i, j),
                )
            } else {
                image.pixel(i, j) == original.pixel(i, j)
            } by {
                if i != x || j != y {
                    assert(image.pixel(i, j) == before.pixel(i, j));
                }
            }
            x = x + 1;
        }
        y = y + 1;
    }
    proof {
        if off_canvas(original, *source, location) {
            lemma_off_canvas_covers_nothing(original, *source, location);
            assert forall|x: int, y: int| original.in_bounds(x, y) implies #[trigger] image.pixel(
                x,
                y,
            ) == original.pixel(x, y) by {
                assert(!under_source(original, *source, location, x, y));
            }
            lemma_same_pixels_same_bytes(original, *image);
        }
    }
}

impl Image {
    /// Draws another image with its top-left corner at `location`, replacing
    /// the covered pixels of this one and clipping on all four sides.
    pub fn draw_image_over(&mut self, other_image: &Image, location: Point)
        requires
            old(self).wf(),
            other_image.wf(),
            placement_fits(*other_image, location),
        ensures
            final(self).wf(),
            final(self).same_layout(old(self)),
            padding_kept(*old(self), *final(self)),
            off_canvas(*old(self), *other_image, location) ==> final(self).data@ == old(self).data@,
            forall|x: int, y: int|
                old(self).in_bounds(x, y) ==> #[trigger] final(self).pixel(x, y) == if under_source(
                    *old(self),
                    *other_image,
                    location,
                    x,
                    y,
                ) {
                    other_image.pixel(x - location.x, y - location.y)
                } else {
                    old(self).pixel(x, y)
                },
    {
        let replace = |base: Color, top: Color| -> (c: Color)
            ensures
                c == top,
            { top };
        draw_blended(self, other_image, location, &replace);
    }
}

/// A source placed entirely off the target on any side covers none of its
/// pixels, so drawing it leaves the target as it was.
pub proof fn lemma_off_canvas_covers_nothing(target: Image, source: Image, location: Point)
    requires
        off_canvas(target, source, location),
    ensures
        forall|x: int, y: int| !#[trigger] under_source(target, source, location, x, y),
{
}

/// Composites one pixel of a layer over one pixel below it.  Where both are
/// fully transparent the pixel below stays as it is.  The Porter-Duff modes
/// keep the red, green and blue of the pixel below and take the alpha that
/// `coverage` computes; every other mode gives what `blend` computes (the
/// mode's colour math followed by source-over alpha compositing).
pub fn composite_pixel<F: Fn(Color, Color) -> Color, G: Fn(Color, Color) -> u8>(
    base: Color,
    top: Color,
    mode: BlendMode,
    blend: &F,
    coverage: &G,
) -> (c: Color)
    requires
        forall|b: Color, t: Color| blend.requires((b, t)),
        forall|b: Color, t: Color| coverage.requires((b, t)),
    ensures
        base.alpha == 0 && top.alpha == 0 ==> c == base,
        !(base.alpha == 0 && top.alpha == 0) && porter_duff(mode) ==> c.red == base.red && c.green
            == base.green && c.blue == base.blue && coverage.ensures((base, top), c.alpha),
        !(base.alpha == 0 && top.alpha == 0) && !porter_duff(mode) ==> blend.ensures((base, top), c),
{
    if base.alpha == 0 && top.alpha == 0 {
        return base;
    }
    if mode.is_porter_duff() {
        let alpha = coverage(base, top);
        Color { red: base.red, green: base.green, blue: base.blue, alpha }
    } else {
        blend(base, top)
    }
}

/// Draws `source` over `image` at `location` in one of the Porter-Duff
/// modes: every pixel keeps its red, green and blue, and a covered pixel
/// takes the alpha that `coverage` computes unless it and the source pixel
/// are both fully transparent.
pub fn draw_porter_duff<G: Fn(Color, Color) -> u8>(
    image: &mut Image,
    source: &Image,
    location: Point,
    mode: BlendMode,
    coverage: &G,
)
    requires
        old(image).wf(),
        source.wf(),
        placement_fits(*source, location),
        porter_duff(mode),
        forall|b: Color, t: Color| coverage.requires((b, t)),
    ensures
        final(image).wf(),
        final(image).same_layout(old(image)),
        padding_kept(*old(image), *final(image)),
        forall|x: int, y: int|
            old(image).in_bounds(x, y) ==> {
                let (before, after) = (old(image).pixel(x, y), #[trigger] final(image).pixel(x, y));
                &&& after.red == before.red
                &&& after.green == before.green
                &&& after.blue == before.blue
                &&& !under_source(*old(image), *source, location, x, y) ==> after == before
                &&& under_source(*old(image), *source, location, x, y) && !(before.alpha == 0
                    && source.pixel(x - location.x, y - location.y).alpha == 0) ==> coverage.ensures(
                    (before, source.pixel(x - location.x, y - location.y)),
                    after.alpha,
                )
            },
{
    let keep = |b: Color, t: Color| -> (c: Color)
        ensures
            c == b,
        { b };
    let blend = |b: Color, t: Color| -> (c: Color)
        ensures
            c.red == b.red && c.green == b.green && c.blue == b.blue,
            !(b.alpha == 0 && t.alpha == 0) ==> coverage.ensures((b, t), c.alpha),
            b.alpha == 0 && t.alpha == 0 ==> c == b,
        { composite_pixel(b, t, mode, &keep, coverage) };
    draw_blended(image, source, location, &blend);
}

} // verus!
