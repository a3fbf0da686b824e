use vstd::prelude::*;

use crate::color::Color;
use crate::geometry::{Point, Size};

verus! {

/// An RGBA8 pixel buffer: four bytes per pixel, not premultiplied, rows
/// `bytes_per_row` apart (which may exceed four times the width).
#[derive(Debug, PartialEq, Eq)]
pub struct Image {
    /// The raw bytes.
    pub data: Vec<u8>,
    /// The size in pixels.
    pub size: Size,
    /// The distance in bytes from one row to the next.
    pub bytes_per_row: u32,
}

/// The colour held by the four bytes of `data` from `offset` on.
pub open spec fn color_at(data: Seq<u8>, offset: int) -> Color {
    Color {
        red: data[offset],
        green: data[offset + 1],
        blue: data[offset + 2],
        alpha: data[offset + 3],
    }
}

/// `data` with the four bytes from `offset` on replaced by `c`.
pub open spec fn put_color(data: Seq<u8>, offset: int, c: Color) -> Seq<u8> {
    data.update(offset, c.red).update(offset + 1, c.green).update(offset + 2, c.blue).update(
        offset + 3,
        c.alpha,
    )
}

impl Image {
    /// The buffer holds every row of the image.
    pub open spec fn wf(&self) -> bool {
        &&& 0 <= self.size.width
        &&& 0 <= self.size.height
        &&& 4 * self.size.width <= self.bytes_per_row
        &&& self.bytes_per_row * self.size.height <= self.data@.len()
    }

    /// Whether `(x, y)` is a pixel of the image.
    pub open spec fn in_bounds(&self, x: int, y: int) -> bool {
        0 <= x < self.size.width && 0 <= y < self.size.height
    }

    /// The byte offset of pixel `(x, y)`.
    pub open spec fn offset(&self, x: int, y: int) -> int {
        self.bytes_per_row * y + 4 * x
    }

    /// The colour of pixel `(x, y)`.
    pub open spec fn pixel(&self, x: int, y: int) -> Color {
        color_at(self.data@, self.offset(x, y))
    }

    /// Byte `i` of the buffer belongs to a pixel.
    pub open spec fn pixel_byte(&self, i: int) -> bool {
        &&& self.bytes_per_row > 0
        &&& 0 <= i
        &&& i / (self.bytes_per_row as int) < self.size.height
        &&& i % (self.bytes_per_row as int) < 4 * self.size.width
    }

    /// Two images of the same size, row stride and buffer length.
    pub open spec fn same_layout(&self, other: &Image) -> bool {
        &&& self.size == other.size
        &&& self.bytes_per_row == other.bytes_per_row
        &&& self.data@.len() == other.data@.len()
    }
}

/// `after` keeps every byte of `before` that belongs to no pixel: the
/// padding at the ends of rows and any bytes after the last row.
pub open spec fn padding_kept(before: Image, after: Image) -> bool {
    forall|i: int|
        0 <= i < before.data@.len() && !before.pixel_byte(i) ==> #[trigger] after.data@[i]
            == before.data@[i]
}

/// The bytes of a pixel belong to it.
pub proof fn lemma_pixel_bytes(img: &Image, x: int, y: int)
    requires
        img.wf(),
        img.in_bounds(x, y),
    ensures
        forall|k: int| 0 <= k < 4 ==> #[trigger] img.pixel_byte(img.offset(x, y) + k),
{
    let b = img.bytes_per_row as int;
    assert forall|k: int| 0 <= k < 4 implies #[trigger] img.pixel_byte(img.offset(x, y) + k) by {
        assert(b * y == y * b) by (nonlinear_arith);
        assert(b * y >= 0) by (nonlinear_arith)
            requires
                b >= 0,
                y >= 0,
        ;
        vstd::arithmetic::div_mod::lemma_fundamental_div_mod_converse(
            img.offset(x, y) + k,
            b,
            y,
            4 * x + k,
        );
    }
}

/// Images of one layout with the same pixels, one keeping the other's
/// padding, hold the same bytes.
pub proof fn lemma_same_pixels_same_bytes(before: Image, after: Image)
    requires
        before.wf(),
        after.same_layout(&before),
        padding_kept(before, after),
        forall|x: int, y: int| before.in_bounds(x, y) ==> #[trigger] after.pixel(x, y) == before.pixel(x, y),
    ensures
        after.data@ == before.data@,
{
    assert forall|i: int| 0 <= i < before.data@.len() implies after.data@[i] == before.data@[i] by {
        if before.pixel_byte(i) {
            let b = before.bytes_per_row as int;
            let y = i / b;
            let r = i % b;
            let x = r / 4;
            vstd::arithmetic::div_mod::lemma_fundamental_div_mod(i, b);
            vstd::arithmetic::div_mod::lemma_fundamental_div_mod(r, 4);
            vstd::arithmetic::div_mod::lemma_mod_pos_bound(i, b);
            vstd::arithmetic::div_mod::lemma_div_pos_is_pos(i, b);
            vstd::arithmetic::div_mod::lemma_mod_pos_bound(r, 4);
            assert(b * y == y * b) by (nonlinear_arith);
            assert(before.in_bounds(x, y));
            assert(after.pixel(x, y) == before.pixel(x, y));
            assert(i == before.offset(x, y) + r % 4);
        }
    }
    assert(after.data@ =~= before.data@);
}

/// The four bytes of a pixel lie inside the buffer.
pub proof fn lemma_pixel_inside(img: &Image, x: int, y: int)
    requires
        img.wf(),
        img.in_bounds(x, y),
    ensures
        0 <= img.offset(x, y),
        img.offset(x, y) + 4 <= img.bytes_per_row * (y + 1),
        img.bytes_per_row * (y + 1) <= img.data@.len(),
{
    let b = img.bytes_per_row as int;
    let h = img.size.height as int;
    assert(b * y >= 0) by (nonlinear_arith)
        requires
            b >= 0,
            y >= 0,
    ;
    assert(b * (y + 1) == b * y + b) by (nonlinear_arith);
    assert(b * (y + 1) <= b * h) by (nonlinear_arith)
        requires
            b >= 0,
            y + 1 <= h,
    ;
}

/// Distinct pixels occupy disjoint bytes.
pub proof fn lemma_pixels_apart(img: &Image, x1: int, y1: int, x2: int, y2: int)
    requires
        img.wf(),
        img.in_bounds(x1, y1),
        img.in_bounds(x2, y2),
        x1 != x2 || y1 != y2,
    ensures
        img.offset(x1, y1) + 4 <= img.offset(x2, y2) || img.offset(x2, y2) + 4 <= img.offset(
            x1,
            y1,
        ),
{
    let b = img.bytes_per_row as int;
    if y1 < y2 {
        assert(b * y1 + b <= b * y2) by (nonlinear_arith)
            requires
                y1 < y2,
                b >= 0,
        ;
    } else if y2 < y1 {
        assert(b * y2 + b <= b * y1) by (nonlinear_arith)
            requires
                y2 < y1,
                b >= 0,
        ;
    }
}

/// Writing one pixel changes that pixel alone.
pub proof fn lemma_put_pixel(img: &Image, x: int, y: int, c: Color, data: Seq<u8>)
    requires
        img.wf(),
        img.in_bounds(x, y),
        data == put_color(img.data@, img.offset(x, y), c),
    ensures
        data.len() == img.data@.len(),
        forall|i: int|
            0 <= i < data.len() && !img.pixel_byte(i) ==> #[trigger] data[i] == img.data@[i],
        color_at(data, img.offset(x, y)) == c,
        forall|i: int, j: int|
            img.in_bounds(i, j) && (i != x || j != y) ==> #[trigger] color_at(data, img.offset(i, j))
                == img.pixel(i, j),
{
    lemma_pixel_inside(img, x, y);
    lemma_pixel_bytes(img, x, y);
    let o = img.offset(x, y);
    assert forall|i: int| 0 <= i < data.len() && !img.pixel_byte(i) implies #[trigger] data[i]
        == img.data@[i] by {
        if o <= i < o + 4 {
            assert(img.pixel_byte(o + (i - o)));
        }
    }
    assert forall|i: int, j: int| img.in_bounds(i, j) && (i != x || j != y) implies #[trigger] color_at(
        data,
        img.offset(i, j),
    ) == img.pixel(i, j) by {
        lemma_pixels_apart(img, x, y, i, j);
        lemma_pixel_inside(img, i, j);
    }
}

/// Writes `c` into the four bytes of `data` from `offset` on.
pub(crate) fn put_bytes(data: &mut Vec<u8>, offset: usize, c: Color)
    requires
        offset + 4 <= old(data)@.len(),
    ensures
        final(data)@ == put_color(old(data)@, offset as int, c),
{
    let _ = data.len();
    data.set(offset, c.red);
    data.set(offset + 1, c.green);
    data.set(offset + 2, c.blue);
    data.set(offset + 3, c.alpha);
}

/// Reads the colour from the four bytes of `data` from `offset` on.
pub(crate) fn get_bytes(data: &Vec<u8>, offset: usize) -> (c: Color)
    requires
        offset + 4 <= data@.len(),
    ensures
        c == color_at(data@, offset as int),
{
    let _ = data.len();
    Color { red: data[offset], green: data[offset + 1], blue: data[offset + 2], alpha: data[offset + 3] }
}

impl Image {
    /// Creates an image over existing pixel data.
    pub fn new(data: Vec<u8>, size: Size, bytes_per_row: u32) -> (img: Image)
        requires
            0 <= size.width,
            0 <= size.height,
            4 * size.width <= bytes_per_row,
            bytes_per_row * size.height <= data@.len(),
        ensures
            img.wf(),
            img.data@ == data@,
            img.size == size,
            img.bytes_per_row == bytes_per_row,
    {
        Image { data, size, bytes_per_row }
    }

    /// Returns the byte offset of pixel `(x, y)`.
    pub(crate) fn offset_of(&self, x: i32, y: i32) -> (o: usize)
        requires
            self.wf(),
            self.in_bounds(x as int, y as int),
        ensures
            o == self.offset(x as int, y as int),
            o + 4 <= self.data@.len(),
    {
        proof {
            lemma_pixel_inside(self, x as int, y as int);
        }
        let _ = self.data.len();
        self.bytes_per_row as usize * y as usize + x as usize * 4
    }

    /// Creates a transparent image, every byte zero, rows packed.
    pub fn empty(size: Size) -> (img: Image)
        requires
            0 <= size.width,
            0 <= size.height,
            4 * size.width <= u32::MAX,
            4 * size.width * size.height <= u32::MAX,
        ensures
            img.wf(),
            img.size == size,
            img.bytes_per_row == 4 * size.width,
            img.data@.len() == 4 * size.width * size.height,
            forall|i: int| 0 <= i < img.data@.len() ==> img.data@[i] == 0,
    {
        let bytes_per_row = 4 * (size.width as u32);
        let n = (bytes_per_row * size.height as u32) as usize;
        let data = vec![0u8; n];
        Image { data, size, bytes_per_row }
    }

    /// Creates an image of one colour, rows packed.
    pub fn color(color: &Color, size: Size) -> (img: Image)
        requires
            0 <= size.width,
            0 <= size.height,
            4 * size.width <= u32::MAX,
            4 * size.width * size.height <= u32::MAX,
        ensures
            img.wf(),
            img.size == size,
            img.bytes_per_row == 4 * size.width,
            img.data@.len() == 4 * size.width * size.height,
            forall|x: int, y: int| img.in_bounds(x, y) ==> img.pixel(x, y) == *color,
    {
        let mut img = Image::empty(size);
        let mut y: i32 = 0;
        while y < size.height
            invariant
                img.wf(),
                img.size == size,
                img.bytes_per_row == 4 * size.width,
                img.data@.len() == 4 * size.width * size.height,
                0 <= y <= size.height,
                forall|i: int, j: int| img.in_bounds(i, j) && j < y ==> img.pixel(i, j) == *color,
            decreases size.height - y,
        {
            let mut x: i32 = 0;
            while x < size.width
                invariant
                    img.wf(),
                    img.size == size,
                    img.bytes_per_row == 4 * size.width,
                    img.data@.len() == 4 * size.width * size.height,
                    0 <= y < size.height,
                    0 <= x <= size.width,
                    forall|i: int, j: int|
                        img.in_bounds(i, j) && (j < y || (j == y && i < x)) ==> img.pixel(i, j)
                            == *color,
                decreases size.width - x,
            {
                img.set_pixel_color(*color, Point { x, y });
                x = x + 1;
            }
            y = y + 1;
        }
        img
    }

    /// Returns the colour of a pixel, or `None` for a point outside the
    /// image.
    pub fn pixel_color(&self, location: Point) -> (c: Option<Color>)
        requires
            self.wf(),
        ensures
            c == (if self.in_bounds(location.x as int, location.y as int) {
                Some(self.pixel(location.x as int, location.y as int))
            } else {
                None
            }),
    {
        if location.x < 0 || location.y < 0 || location.x >= self.size.width || location.y
            >= self.size.height {
            return None;
        }
        let offset = self.offset_of(location.x, location.y);
        Some(get_bytes(&self.data, offset))
    }

    /// Sets the colour of a pixel; a point outside the image changes nothing.
    pub fn set_pixel_color(&mut self, color: Color, location: Point)
        requires
            old(self).wf(),
        ensures
            final(self).wf(),
            final(self).same_layout(old(self)),
            padding_kept(*old(self), *final(self)),
            old(self).in_bounds(location.x as int, location.y as int) ==> final(self).data@
                == put_color(
                old(self).data@,
                old(self).offset(location.x as int, location.y as int),
                color,
            ),
            !old(self).in_bounds(location.x as int, location.y as int) ==> *final(self) == *old(
                self,
            ),
            forall|i: int, j: int|
                old(self).in_bounds(i, j) ==> #[trigger] final(self).pixel(i, j) == if i
                    == location.x && j == location.y {
                    color
                } else {
                    old(self).pixel(i, j)
                },
    {
        if location.x < 0 || location.y < 0 || location.x >= self.size.width || location.y
            >= self.size.height {
            return;
        }
        let offset = self.offset_of(location.x, location.y);
        let ghost before = *self;
        put_bytes(&mut self.data, offset, color);
        proof {
            lemma_put_pixel(&before, location.x as int, location.y as int, color, self.data@);
        }
    }
}

impl Clone for Image {
    fn clone(&self) -> (r: Image)
        ensures
            r.data@ == self.data@,
            r.size == self.size,
            r.bytes_per_row == self.bytes_per_row,
    {
        let data = self.data.clone();
        assert(data@ =~= self.data@);
        Image { data, size: self.size, bytes_per_row: self.bytes_per_row }
    }
}

} // verus!
